//! Launch classification, single-instance object names, and the bounded
//! queue of typed activation events (ordinary launch, URL open, file open)
//! that a second launch hands to the already-running process.

use vstd::prelude::*;

use crate::text::{
    push_char,
    chars_of, contains_ignore_ascii_case, is_ascii_alnum, is_ascii_alnum_char, is_ascii_alpha,
    is_ascii_alpha_char, spec_contains_ignore_ascii_case,
};

verus! {

/// A typed activation payload, never a shell-joined string. `Launch`
/// carries the second process's own `argv` (its first element still the
/// executable path) so the primary can re-parse it as it would its own.
/// File paths are carried as the text they were given as.
#[derive(Debug, Clone, PartialEq)]
pub enum ActivationEvent {
    Launch { args: Vec<String> },
    OpenUrl { url: String },
    OpenFiles { paths: Vec<String> },
}

/// The mathematical value of an [`ActivationEvent`].
pub enum ActivationEventView {
    Launch { args: Seq<Seq<char>> },
    OpenUrl { url: Seq<char> },
    OpenFiles { paths: Seq<Seq<char>> },
}

impl View for ActivationEvent {
    type V = ActivationEventView;

    open spec fn view(&self) -> ActivationEventView {
        match self {
            ActivationEvent::Launch { args } => ActivationEventView::Launch { args: args.deep_view() },
            ActivationEvent::OpenUrl { url } => ActivationEventView::OpenUrl { url: url@ },
            ActivationEvent::OpenFiles { paths } => ActivationEventView::OpenFiles {
                paths: paths.deep_view(),
            },
        }
    }
}

// ---------------------------------------------------------------------
// URL schemes
// ---------------------------------------------------------------------

/// `"://"` starts at position `i` of `v`.
pub open spec fn separator_at(v: Seq<char>, i: int) -> bool {
    &&& 0 <= i
    &&& i + 3 <= v.len()
    &&& v[i] == ':'
    &&& v[i + 1] == '/'
    &&& v[i + 2] == '/'
}

/// The first position at or after `from` where `"://"` starts.
pub open spec fn first_separator(v: Seq<char>, from: nat) -> Option<nat>
    decreases v.len() - from,
{
    if from + 3 > v.len() {
        None
    } else if separator_at(v, from as int) {
        Some(from)
    } else {
        first_separator(v, from + 1)
    }
}

/// A position that `first_separator` reports really starts `"://"`, and
/// lies at or after where the search began.
pub proof fn lemma_first_separator(v: Seq<char>, from: nat)
    ensures
        first_separator(v, from) matches Some(i) ==> from <= i && separator_at(v, i as int),
    decreases v.len() - from,
{
    if from + 3 <= v.len() && !separator_at(v, from as int) {
        lemma_first_separator(v, from + 1);
    }
}

/// A character allowed after the first one of a scheme: an ASCII letter or
/// digit, `+`, `-` or `.`.
pub open spec fn is_scheme_char(c: char) -> bool {
    is_ascii_alnum(c) || c == '+' || c == '-' || c == '.'
}

/// A well-formed scheme per RFC 3986: a letter, then letters, digits,
/// `+`, `-` or `.`.
pub open spec fn is_valid_scheme(s: Seq<char>) -> bool {
    &&& s.len() > 0
    &&& is_ascii_alpha(s[0])
    &&& forall|k: int| 1 <= k < s.len() ==> #[trigger] is_scheme_char(s[k])
}

/// The scheme of `value`: the text before its first `"://"`, provided it
/// is well formed.
pub open spec fn spec_url_scheme(value: Seq<char>) -> Option<Seq<char>> {
    match first_separator(value, 0) {
        Some(i) => if is_valid_scheme(value.take(i as int)) {
            Some(value.take(i as int))
        } else {
            None
        },
        None => None,
    }
}

/// The scheme portion of `value` (before `://`), only if that scheme is
/// well formed per RFC 3986 (a letter, then letters/digits/`+`/`-`/`.`).
pub fn url_scheme(value: &str) -> (res: Option<&str>)
    ensures
        match res {
            Some(s) => spec_url_scheme(value@) == Some(s@),
            None => spec_url_scheme(value@) is None,
        },
{
    let v = chars_of(value);
    let sep = match find_separator(&v) {
        Some(sep) => sep,
        None => {
            return None;
        },
    };
    proof {
        lemma_first_separator(v@, 0);
    }
    if sep == 0 || !is_ascii_alpha_char(v[0]) {
        assert(!is_valid_scheme(v@.take(sep as int)));
        return None;
    }
    if !scheme_tail_is_valid(&v, sep) {
        proof {
            let j = choose|j: int| 1 <= j < sep && !is_scheme_char(#[trigger] v@[j]);
            assert(v@.take(sep as int)[j] == v@[j]);
        }
        return None;
    }
    assert(is_valid_scheme(v@.take(sep as int)));
    Some(value.substring_char(0, sep))
}

/// The first position where `"://"` starts in `v`.
fn find_separator(v: &Vec<char>) -> (res: Option<usize>)
    ensures
        match res {
            Some(i) => first_separator(v@, 0) == Some(i as nat),
            None => first_separator(v@, 0) is None,
        },
{
    let n = v.len();
    let mut i: usize = 0;
    while i < n && n - i >= 3
        invariant
            n == v.len(),
            i <= n,
            first_separator(v@, 0) == first_separator(v@, i as nat),
        decreases n - i,
    {
        if v[i] == ':' && v[i + 1] == '/' && v[i + 2] == '/' {
            return Some(i);
        }
        i = i + 1;
    }
    None
}

/// Whether every character of `v` from position 1 up to `sep` may follow
/// the first character of a scheme.
fn scheme_tail_is_valid(v: &Vec<char>, sep: usize) -> (res: bool)
    requires
        1 <= sep <= v.len(),
    ensures
        res == (forall|j: int| 1 <= j < sep ==> #[trigger] is_scheme_char(v@[j])),
{
    let mut k: usize = 1;
    while k < sep
        invariant
            1 <= k <= sep,
            sep <= v.len(),
            forall|j: int| 1 <= j < k ==> #[trigger] is_scheme_char(v@[j]),
        decreases sep - k,
    {
        let c = v[k];
        if !(is_ascii_alnum_char(c) || c == '+' || c == '-' || c == '.') {
            assert(!is_scheme_char(v@[k as int]));
            return false;
        }
        k = k + 1;
    }
    true
}

// ---------------------------------------------------------------------
// File extensions
// ---------------------------------------------------------------------

/// The position of the last occurrence of `c` in `s`, or `-1`.
pub open spec fn last_index_of(s: Seq<char>, c: char) -> int
    decreases s.len(),
{
    if s.len() == 0 {
        -1
    } else if s.last() == c {
        s.len() - 1
    } else {
        last_index_of(s.drop_last(), c)
    }
}

/// The extension of a bare file name, as `Path::extension` finds it: the
/// text after the last `.`, unless the name is `..`, has no `.`, or its
/// only `.` is the first character.
pub open spec fn file_name_extension(name: Seq<char>) -> Option<Seq<char>> {
    let i = last_index_of(name, '.');
    if name == seq!['.', '.'] || i <= 0 {
        None
    } else {
        Some(name.skip(i + 1))
    }
}

/// Text with no path separator and no drive designator on any platform:
/// no `/`, `\` or `:`. Such a text is a bare file name.
pub open spec fn is_bare_file_name(s: Seq<char>) -> bool {
    forall|k: int| 0 <= k < s.len() ==> #[trigger] s[k] != '/' && s[k] != '\\' && s[k] != ':'
}

/// An optional text as its characters.
pub open spec fn opt_view(o: Option<String>) -> Option<Seq<char>> {
    match o {
        Some(s) => Some(s@),
        None => None,
    }
}

/// A path separator on some platform: `/` everywhere, `\` on Windows.
pub open spec fn is_separator(c: char) -> bool {
    c == '/' || c == '\\'
}

/// A path whose extension every platform reads the same way: it does not
/// start with two separators (a Windows UNC, device or verbatim prefix),
/// it has a `.` that is not its first character, the character just
/// before the last `.` is no separator, `:` (a Windows drive) or `.`, and
/// no separator follows the last `.`. Its extension is then the text after
/// the last `.`.
pub open spec fn has_plain_extension(s: Seq<char>) -> bool {
    let i = last_index_of(s, '.');
    &&& !(s.len() >= 2 && is_separator(s[0]) && is_separator(s[1]))
    &&& i >= 1
    &&& !is_separator(s[i - 1]) && s[i - 1] != ':' && s[i - 1] != '.'
    &&& forall|k: int| i < k < s.len() ==> !is_separator(#[trigger] s[k])
}

/// A path whose extension does not depend on the platform: a bare file
/// name, or a path with a plain extension.
pub open spec fn extension_is_fixed(s: Seq<char>) -> bool {
    is_bare_file_name(s) || has_plain_extension(s)
}

/// The extension of a path whose extension is fixed (see
/// [`extension_is_fixed`]).
pub open spec fn fixed_extension(s: Seq<char>) -> Option<Seq<char>> {
    if is_bare_file_name(s) {
        file_name_extension(s)
    } else {
        Some(s.skip(last_index_of(s, '.') + 1))
    }
}

/// `Path::extension` of `arg`, as text. Where a path component ends
/// depends on the platform (`\` and drive, UNC, device and verbatim
/// prefixes separate components on Windows only), so the contract pins the
/// result down where every platform agrees: for a bare file name, the text
/// after the last `.` unless the name is `..` or its only `.` leads; for a
/// path with a plain extension, the text after the last `.`. What it gives
/// for other paths (those starting with two separators, or whose last `.`
/// follows a separator, `:` or another `.`) is not stated. For any input,
/// an extension holds no `.`.
#[verifier::external_body]
fn path_extension(arg: &str) -> (ext: Option<String>)
    ensures
        extension_is_fixed(arg@) ==> opt_view(ext) == fixed_extension(arg@),
        ext matches Some(e) ==> !e@.contains('.'),
{
    std::path::Path::new(arg).extension().and_then(|e| e.to_str()).map(|e| e.to_owned())
}

/// Whether `ext` is present and equals a declared extension, ASCII case
/// ignored.
pub open spec fn extension_declared(ext: Option<Seq<char>>, declared: Seq<Seq<char>>) -> bool {
    match ext {
        Some(e) => spec_contains_ignore_ascii_case(declared, e),
        None => false,
    }
}

/// Whether an already-extracted extension is one of the declared ones.
pub fn is_declared_extension(ext: &Option<String>, file_extensions: &[String]) -> (res: bool)
    ensures
        res == extension_declared(ext.deep_view(), file_extensions.deep_view()),
{
    match ext {
        Some(e) => contains_ignore_ascii_case(file_extensions, e.as_str()),
        None => false,
    }
}

/// Whether `arg` names a file with one of the declared extensions (ASCII
/// case ignored on both sides). Where the extension does not depend on the
/// platform (see [`extension_is_fixed`]) the answer is exact; otherwise
/// the extension is whatever the platform's path rules give.
pub fn matches_known_extension(arg: &str, file_extensions: &[String]) -> (res: bool)
    ensures
        extension_is_fixed(arg@) ==> res == extension_declared(
            fixed_extension(arg@),
            file_extensions.deep_view(),
        ),
        res ==> exists|e: Seq<char>| !e.contains('.') && extension_declared(Some(e), file_extensions.deep_view()),
{
    let ext = path_extension(arg);
    let res = is_declared_extension(&ext, file_extensions);
    proof {
        if res {
            let e = ext->0@;
            assert(!e.contains('.') && extension_declared(Some(e), file_extensions.deep_view()));
        }
    }
    res
}

// ---------------------------------------------------------------------
// Classification
// ---------------------------------------------------------------------

/// The arguments after the executable path.
pub open spec fn trailing_args(args: Seq<Seq<char>>) -> Seq<Seq<char>> {
    if args.len() == 0 {
        args
    } else {
        args.skip(1)
    }
}

/// `arg` is a URL whose well-formed scheme is one of `schemes`, ASCII case
/// ignored.
pub open spec fn is_declared_url(arg: Seq<char>, schemes: Seq<Seq<char>>) -> bool {
    match spec_url_scheme(arg) {
        Some(scheme) => spec_contains_ignore_ascii_case(schemes, scheme),
        None => false,
    }
}

/// Launch classification over already-known extensions: `exts[k]` is the
/// extension of the `k`-th trailing argument. A single trailing argument
/// with a declared scheme is a URL open; one or more trailing arguments
/// whose extensions are all declared are a file open; anything else is an
/// ordinary launch carrying `args` unchanged.
pub open spec fn spec_classify(
    args: Seq<Seq<char>>,
    schemes: Seq<Seq<char>>,
    file_extensions: Seq<Seq<char>>,
    exts: Seq<Option<Seq<char>>>,
) -> ActivationEventView {
    let trailing = trailing_args(args);
    if trailing.len() == 1 && is_declared_url(trailing[0], schemes) {
        ActivationEventView::OpenUrl { url: trailing[0] }
    } else if trailing.len() > 0 && (forall|k: int|
        0 <= k < trailing.len() ==> #[trigger] extension_declared(exts[k], file_extensions)) {
        ActivationEventView::OpenFiles { paths: trailing }
    } else {
        ActivationEventView::Launch { args }
    }
}

/// Whether every entry of `exts` is a declared extension.
pub fn all_declared(exts: &[Option<String>], file_extensions: &[String]) -> (res: bool)
    ensures
        res == (forall|k: int|
            0 <= k < exts@.len() ==> #[trigger] extension_declared(
                exts.deep_view()[k],
                file_extensions.deep_view(),
            )),
{
    let mut k: usize = 0;
    while k < exts.len()
        invariant
            k <= exts@.len(),
            forall|j: int|
                0 <= j < k ==> #[trigger] extension_declared(
                    exts.deep_view()[j],
                    file_extensions.deep_view(),
                ),
        decreases exts.len() - k,
    {
        if !is_declared_extension(&exts[k], file_extensions) {
            assert(exts.deep_view()[k as int] == exts@[k as int].deep_view());
            return false;
        }
        assert(exts.deep_view()[k as int] == exts@[k as int].deep_view());
        k = k + 1;
    }
    true
}

/// Classifies `args` given the extension of each trailing argument
/// (`trailing_extensions[k]` belongs to `args[k + 1]`).
pub fn classify_launch_with(
    args: Vec<String>,
    url_schemes: &[String],
    file_extensions: &[String],
    trailing_extensions: &[Option<String>],
) -> (event: ActivationEvent)
    requires
        trailing_extensions@.len() == trailing_args(args.deep_view()).len(),
    ensures
        event@ == spec_classify(
            args.deep_view(),
            url_schemes.deep_view(),
            file_extensions.deep_view(),
            trailing_extensions.deep_view(),
        ),
{
    let ghost a = args.deep_view();
    let n = args.len();
    if n == 2 {
        assert(trailing_args(a)[0] == a[1]);
        match url_scheme(args[1].as_str()) {
            Some(scheme) => {
                if contains_ignore_ascii_case(url_schemes, scheme) {
                    let url = args[1].clone();
                    return ActivationEvent::OpenUrl { url };
                }
            },
            None => {},
        }
    }
    if n >= 2 && all_declared(trailing_extensions, file_extensions) {
        let mut paths: Vec<String> = Vec::new();
        let mut j: usize = 1;
        while j < n
            invariant
                n == args.len(),
                1 <= j <= n,
                paths@ == args@.subrange(1, j as int),
            decreases n - j,
        {
            paths.push(args[j].clone());
            assert(paths@ =~= args@.subrange(1, j + 1));
            j = j + 1;
        }
        assert(paths.deep_view() =~= trailing_args(a));
        return ActivationEvent::OpenFiles { paths };
    }
    ActivationEvent::Launch { args }
}

/// Every trailing argument has an extension that does not depend on the
/// platform.
pub open spec fn all_extensions_fixed(args: Seq<Seq<char>>) -> bool {
    forall|k: int| 0 <= k < trailing_args(args).len() ==> #[trigger] extension_is_fixed(trailing_args(args)[k])
}

/// The platform-independent extensions of the trailing arguments.
pub open spec fn fixed_extensions(args: Seq<Seq<char>>) -> Seq<Option<Seq<char>>> {
    trailing_args(args).map_values(|a: Seq<char>| fixed_extension(a))
}

/// Classifies a process's own `argv` (`args[0]` still the executable path)
/// into a typed [`ActivationEvent`], against the app's declared
/// `url_schemes`/`file_extensions`. A single trailing argument whose scheme
/// matches a declared one becomes `OpenUrl`; one or more trailing arguments
/// that all match a declared extension become `OpenFiles`; anything else
/// stays `Launch`. Matching ignores ASCII case on both sides. Nothing is
/// opened or checked on disk.
///
/// The result is the classification for the extensions the platform's path
/// rules find in the trailing arguments; where those do not depend on the
/// platform (see [`extension_is_fixed`]: bare file names and paths such as
/// `C:\docs\plan.garden` or `/home/me/plan.garden`) they are fixed by the
/// contract, and when all of them are, so is the result.
pub fn classify_launch(args: Vec<String>, url_schemes: &[String], file_extensions: &[String]) -> (event: ActivationEvent)
    ensures
        exists|exts: Seq<Option<Seq<char>>>|
            {
                &&& exts.len() == trailing_args(args.deep_view()).len()
                &&& forall|k: int|
                    0 <= k < exts.len() && extension_is_fixed(trailing_args(args.deep_view())[k])
                        ==> #[trigger] exts[k] == fixed_extension(trailing_args(args.deep_view())[k])
                &&& event@ == spec_classify(
                    args.deep_view(),
                    url_schemes.deep_view(),
                    file_extensions.deep_view(),
                    exts,
                )
            },
        all_extensions_fixed(args.deep_view()) ==> event@ == spec_classify(
            args.deep_view(),
            url_schemes.deep_view(),
            file_extensions.deep_view(),
            fixed_extensions(args.deep_view()),
        ),
{
    let ghost a = args.deep_view();
    let n = args.len();
    let mut exts: Vec<Option<String>> = Vec::new();
    let mut j: usize = 1;
    while j < n
        invariant
            n == args.len(),
            a == args.deep_view(),
            1 <= j <= n || (n == 0 && j == 1),
            exts@.len() == j - 1,
            forall|k: int|
                0 <= k < exts@.len() && extension_is_fixed(a[k + 1])
                    ==> #[trigger] opt_view(exts@[k]) == fixed_extension(a[k + 1]),
        decreases n - j,
    {
        let e = path_extension(args[j].as_str());
        exts.push(e);
        j = j + 1;
    }
    let ghost ev = exts.deep_view();
    proof {
        assert forall|k: int|
            0 <= k < ev.len() && extension_is_fixed(trailing_args(a)[k]) implies
            #[trigger] ev[k] == fixed_extension(trailing_args(a)[k]) by {
            assert(trailing_args(a)[k] == a[k + 1]);
            assert(ev[k] == opt_view(exts@[k]));
        }
        if all_extensions_fixed(a) {
            assert(ev =~= fixed_extensions(a));
        }
    }
    let event = classify_launch_with(args, url_schemes, file_extensions, exts.as_slice());
    assert(ev.len() == trailing_args(a).len());
    event
}

} // verus!

verus! {

// ---------------------------------------------------------------------
// Single-instance object names
// ---------------------------------------------------------------------

/// A character kept as it is in a named kernel object: an ASCII letter or
/// digit, `.` or `-`.
pub open spec fn is_identifier_char(c: char) -> bool {
    is_ascii_alnum(c) || c == '.' || c == '-'
}

/// `c` if it is kept, `_` otherwise.
pub open spec fn sanitize_char(c: char) -> char {
    if is_identifier_char(c) {
        c
    } else {
        '_'
    }
}

/// Every character of `id` that is not kept replaced by `_`.
pub open spec fn spec_sanitize_identifier(id: Seq<char>) -> Seq<char> {
    id.map_values(|c: char| sanitize_char(c))
}

/// Replaces every character other than an ASCII letter or digit, `.` or
/// `-` by `_`, so a stray character in a user-supplied identifier can never
/// produce an invalid or surprising object name.
pub fn sanitize_identifier(app_identifier: &str) -> (res: String)
    ensures
        res@ == spec_sanitize_identifier(app_identifier@),
{
    let v = chars_of(app_identifier);
    let mut out = String::new();
    let mut i: usize = 0;
    while i < v.len()
        invariant
            v@ == app_identifier@,
            i <= v.len(),
            out@ == spec_sanitize_identifier(v@.take(i as int)),
        decreases v.len() - i,
    {
        let c = v[i];
        let kept = if is_ascii_alnum_char(c) || c == '.' || c == '-' {
            c
        } else {
            '_'
        };
        push_char(&mut out, kept);
        assert(spec_sanitize_identifier(v@.take(i + 1)) =~= spec_sanitize_identifier(
            v@.take(i as int),
        ).push(sanitize_char(c)));
        i = i + 1;
    }
    assert(v@.take(v.len() as int) =~= v@);
    out
}

/// The fixed part of every single-instance mutex name; `Local\` scopes the
/// object to the caller's own logon session.
pub open spec fn mutex_prefix() -> Seq<char> {
    "Local\\florui-single-instance-"@
}

/// The fixed part of every single-instance pipe name.
pub open spec fn pipe_prefix() -> Seq<char> {
    "\\\\.\\pipe\\florui-single-instance-"@
}

/// The named mutex that marks the primary instance of `app_identifier`.
pub fn mutex_name(app_identifier: &str) -> (res: String)
    ensures
        res@ == mutex_prefix() + spec_sanitize_identifier(app_identifier@),
{
    let mut name = "Local\\florui-single-instance-".to_owned();
    let id = sanitize_identifier(app_identifier);
    name.append(id.as_str());
    name
}

/// The named pipe a second launch hands its activation event through.
pub fn pipe_name(app_identifier: &str) -> (res: String)
    ensures
        res@ == pipe_prefix() + spec_sanitize_identifier(app_identifier@),
{
    let mut name = "\\\\.\\pipe\\florui-single-instance-".to_owned();
    let id = sanitize_identifier(app_identifier);
    name.append(id.as_str());
    name
}

// ---------------------------------------------------------------------
// The activation queue
// ---------------------------------------------------------------------

/// How many not-yet-delivered activation events an [`ActivationQueue`]
/// holds before it starts dropping the oldest.
pub const MAX_QUEUED_EVENTS: usize = 16;

/// The queue after `event` arrives: appended at the back, the oldest
/// dropped first when the queue is already full.
pub open spec fn spec_push(queue: Seq<ActivationEvent>, event: ActivationEvent) -> Seq<ActivationEvent> {
    if queue.len() >= MAX_QUEUED_EVENTS {
        queue.drop_first().push(event)
    } else {
        queue.push(event)
    }
}

/// Activation events that arrived before, or between renders of, the
/// window that reads them. Bounded: a push past [`MAX_QUEUED_EVENTS`] drops
/// the oldest queued event.
#[derive(Debug)]
pub struct ActivationQueue {
    events: std::collections::VecDeque<ActivationEvent>,
}

impl View for ActivationQueue {
    type V = Seq<ActivationEvent>;

    closed spec fn view(&self) -> Seq<ActivationEvent> {
        self.events@
    }
}

impl ActivationQueue {
    #[verifier::type_invariant]
    spec fn bounded(self) -> bool {
        self.events@.len() <= MAX_QUEUED_EVENTS
    }

    /// An empty queue.
    pub fn new() -> (q: Self)
        ensures
            q@ == Seq::<ActivationEvent>::empty(),
    {
        ActivationQueue { events: std::collections::VecDeque::new() }
    }

    /// Queues `event` at the back, first dropping the oldest event when the
    /// queue is full.
    pub fn push(&mut self, event: ActivationEvent)
        ensures
            final(self)@ == spec_push(old(self)@, event),
            final(self)@.len() <= MAX_QUEUED_EVENTS,
    {
        proof {
            use_type_invariant(&*self);
        }
        let mut events = std::collections::VecDeque::new();
        std::mem::swap(&mut events, &mut self.events);
        if events.len() >= MAX_QUEUED_EVENTS {
            let _ = events.pop_front();
        }
        events.push_back(event);
        self.events = events;
    }

    /// Every event queued since the last call, oldest first; the queue is
    /// left empty.
    pub fn take_pending(&mut self) -> (pending: Vec<ActivationEvent>)
        ensures
            pending@ == old(self)@,
            final(self)@ == Seq::<ActivationEvent>::empty(),
    {
        let mut events = std::collections::VecDeque::new();
        std::mem::swap(&mut events, &mut self.events);
        let ghost initial = events@;
        let mut pending: Vec<ActivationEvent> = Vec::new();
        while events.len() > 0
            invariant
                pending@ + events@ == initial,
            decreases events@.len(),
        {
            let event = events.pop_front().unwrap();
            pending.push(event);
            assert(pending@ + events@ =~= initial);
        }
        assert(pending@ =~= initial);
        pending
    }
}

impl Default for ActivationQueue {
    fn default() -> (q: Self)
        ensures
            q@ == Seq::<ActivationEvent>::empty(),
    {
        ActivationQueue::new()
    }
}

/// The primary window's handle on the activation queue: every event queued
/// since the last call is read out exactly once.
#[derive(Debug)]
pub struct ActivationEvents(pub ActivationQueue);

impl ActivationEvents {
    /// Every event queued since the last call, oldest first. Draining (not
    /// peeking): nothing else is left to read the same event twice.
    pub fn take_pending(&mut self) -> (pending: Vec<ActivationEvent>)
        ensures
            pending@ == old(self).0@,
            final(self).0@ == Seq::<ActivationEvent>::empty(),
    {
        self.0.take_pending()
    }
}

/// The `Duration` of `secs` whole seconds, as `Duration::from_secs` makes
/// it.
pub uninterp spec fn duration_of_secs(secs: u64) -> std::time::Duration;

/// `Duration::from_secs`: the duration of `secs` whole seconds, named by
/// [`duration_of_secs`]; it never panics.
#[verifier::external_body]
fn duration_from_secs(secs: u64) -> (d: std::time::Duration)
    ensures
        d == duration_of_secs(secs),
{
    std::time::Duration::from_secs(secs)
}

/// `Duration`'s `Clone`: `Duration` is `Copy`, so a clone is the same value.
pub assume_specification[ <std::time::Duration as Clone>::clone ](d: &std::time::Duration) -> (res: std::time::Duration)
    ensures
        res == *d,
;

/// The plain, already-resolved values an app passes in to opt into
/// single-instance behavior.
#[derive(Debug, Clone, PartialEq)]
pub struct SingleInstance {
    pub app_identifier: String,
    /// How long a second launch waits for the primary to acknowledge a
    /// handed-off activation event before giving up.
    pub handoff_timeout: std::time::Duration,
}

impl Default for SingleInstance {
    /// An empty identifier and a two-second hand-off timeout.
    fn default() -> (s: Self)
        ensures
            s.app_identifier@ == Seq::<char>::empty(),
            s.handoff_timeout == duration_of_secs(2),
    {
        SingleInstance { app_identifier: String::new(), handoff_timeout: duration_from_secs(2) }
    }
}

} // verus!

verus! {

// ---------------------------------------------------------------------
// Laws
// ---------------------------------------------------------------------

/// With no declared scheme and no declared extension, every launch stays
/// an ordinary launch carrying its arguments unchanged.
pub proof fn law_no_declarations_never_classify(
    args: Seq<Seq<char>>,
    exts: Seq<Option<Seq<char>>>,
)
    ensures
        spec_classify(args, Seq::empty(), Seq::empty(), exts) == (ActivationEventView::Launch {
            args,
        }),
{
    let trailing = trailing_args(args);
    if trailing.len() > 0 {
        assert(!extension_declared(exts[0], Seq::empty()));
    }
}

/// A launch with no trailing argument is an ordinary launch.
pub proof fn law_no_trailing_arguments_is_a_launch(
    args: Seq<Seq<char>>,
    schemes: Seq<Seq<char>>,
    file_extensions: Seq<Seq<char>>,
    exts: Seq<Option<Seq<char>>>,
)
    requires
        args.len() <= 1,
    ensures
        spec_classify(args, schemes, file_extensions, exts) == (ActivationEventView::Launch {
            args,
        }),
{
    assert(trailing_args(args).len() == 0);
}

/// Classification never reinterprets an argument: the result carries the
/// arguments themselves, the single trailing argument as the URL, or the
/// trailing arguments as the file paths.
pub proof fn law_classification_keeps_arguments(
    args: Seq<Seq<char>>,
    schemes: Seq<Seq<char>>,
    file_extensions: Seq<Seq<char>>,
    exts: Seq<Option<Seq<char>>>,
)
    ensures
        match spec_classify(args, schemes, file_extensions, exts) {
            ActivationEventView::Launch { args: a } => a == args,
            ActivationEventView::OpenUrl { url } => args.len() == 2 && url == args[1],
            ActivationEventView::OpenFiles { paths } => args.len() >= 2 && paths == args.skip(1),
        },
{
}

/// Ignoring ASCII case is an equivalence: reflexive, symmetric and
/// transitive.
pub proof fn law_eq_ignore_ascii_case_is_an_equivalence(a: Seq<char>, b: Seq<char>, c: Seq<char>)
    ensures
        crate::text::spec_eq_ignore_ascii_case(a, a),
        crate::text::spec_eq_ignore_ascii_case(a, b) ==> crate::text::spec_eq_ignore_ascii_case(b, a),
        crate::text::spec_eq_ignore_ascii_case(a, b) && crate::text::spec_eq_ignore_ascii_case(b, c)
            ==> crate::text::spec_eq_ignore_ascii_case(a, c),
{
    if crate::text::spec_eq_ignore_ascii_case(a, b) && crate::text::spec_eq_ignore_ascii_case(b, c) {
        assert forall|i: int| 0 <= i < a.len() implies #[trigger] crate::text::spec_ascii_fold(a[i])
            == crate::text::spec_ascii_fold(c[i]) by {
            assert(crate::text::spec_ascii_fold(a[i]) == crate::text::spec_ascii_fold(b[i]));
            assert(crate::text::spec_ascii_fold(b[i]) == crate::text::spec_ascii_fold(c[i]));
        }
    }
}

/// Two lists whose entries agree pairwise once ASCII case is ignored.
pub open spec fn same_ignoring_case(x: Seq<Seq<char>>, y: Seq<Seq<char>>) -> bool {
    &&& x.len() == y.len()
    &&& forall|k: int| 0 <= k < x.len() ==> crate::text::spec_eq_ignore_ascii_case(#[trigger] x[k], y[k])
}

proof fn lemma_contains_respects_case(x: Seq<Seq<char>>, y: Seq<Seq<char>>, s: Seq<char>)
    requires
        same_ignoring_case(x, y),
    ensures
        spec_contains_ignore_ascii_case(x, s) == spec_contains_ignore_ascii_case(y, s),
{
    if spec_contains_ignore_ascii_case(x, s) {
        let k = choose|k: int| 0 <= k < x.len() && crate::text::spec_eq_ignore_ascii_case(#[trigger] x[k], s);
        law_eq_ignore_ascii_case_is_an_equivalence(y[k], x[k], s);
        law_eq_ignore_ascii_case_is_an_equivalence(x[k], y[k], s);
        assert(crate::text::spec_eq_ignore_ascii_case(y[k], s));
    }
    if spec_contains_ignore_ascii_case(y, s) {
        let k = choose|k: int| 0 <= k < y.len() && crate::text::spec_eq_ignore_ascii_case(#[trigger] y[k], s);
        law_eq_ignore_ascii_case_is_an_equivalence(x[k], y[k], s);
        assert(crate::text::spec_eq_ignore_ascii_case(x[k], s));
    }
}

/// Matching is case-insensitive on the declaration side too: declaring a
/// scheme or an extension in another ASCII case classifies every launch the
/// same way.
pub proof fn law_declared_case_does_not_matter(
    args: Seq<Seq<char>>,
    schemes1: Seq<Seq<char>>,
    schemes2: Seq<Seq<char>>,
    extensions1: Seq<Seq<char>>,
    extensions2: Seq<Seq<char>>,
    exts: Seq<Option<Seq<char>>>,
)
    requires
        same_ignoring_case(schemes1, schemes2),
        same_ignoring_case(extensions1, extensions2),
    ensures
        spec_classify(args, schemes1, extensions1, exts) == spec_classify(
            args,
            schemes2,
            extensions2,
            exts,
        ),
{
    let trailing = trailing_args(args);
    if trailing.len() == 1 {
        if let Some(scheme) = spec_url_scheme(trailing[0]) {
            lemma_contains_respects_case(schemes1, schemes2, scheme);
        }
        assert(is_declared_url(trailing[0], schemes1) == is_declared_url(trailing[0], schemes2));
    }
    assert forall|k: int|
        #![trigger extension_declared(exts[k], extensions1)]
        #![trigger extension_declared(exts[k], extensions2)]
        0 <= k < trailing.len() implies extension_declared(exts[k], extensions1)
            == extension_declared(exts[k], extensions2) by {
        if let Some(e) = exts[k] {
            lemma_contains_respects_case(extensions1, extensions2, e);
        }
    }
    let all1 = forall|k: int|
        0 <= k < trailing.len() ==> #[trigger] extension_declared(exts[k], extensions1);
    let all2 = forall|k: int|
        0 <= k < trailing.len() ==> #[trigger] extension_declared(exts[k], extensions2);
    assert(all1 == all2);
}

/// Launch classification as a whole matches declarations case-insensitively:
/// declaring a scheme or an extension in another ASCII case gives the same
/// event, for every launch whose trailing arguments have extensions that do
/// not depend on the platform (what [`classify_launch`] then returns).
pub proof fn law_launch_classification_ignores_declared_case(
    args: Seq<Seq<char>>,
    schemes1: Seq<Seq<char>>,
    schemes2: Seq<Seq<char>>,
    extensions1: Seq<Seq<char>>,
    extensions2: Seq<Seq<char>>,
)
    requires
        same_ignoring_case(schemes1, schemes2),
        same_ignoring_case(extensions1, extensions2),
    ensures
        spec_classify(args, schemes1, extensions1, fixed_extensions(args)) == spec_classify(
            args,
            schemes2,
            extensions2,
            fixed_extensions(args),
        ),
{
    law_declared_case_does_not_matter(args, schemes1, schemes2, extensions1, extensions2, fixed_extensions(args));
}

/// A sanitized identifier has the same length as the identifier given and holds
/// only kept characters and `_`; sanitizing again changes nothing.
pub proof fn law_sanitized_identifiers_are_well_formed(id: Seq<char>)
    ensures
        spec_sanitize_identifier(id).len() == id.len(),
        forall|k: int|
            0 <= k < id.len() ==> is_identifier_char(#[trigger] spec_sanitize_identifier(id)[k])
                || spec_sanitize_identifier(id)[k] == '_',
        spec_sanitize_identifier(spec_sanitize_identifier(id)) == spec_sanitize_identifier(id),
{
    assert(spec_sanitize_identifier(spec_sanitize_identifier(id)) =~= spec_sanitize_identifier(id));
}

/// An identifier made only of kept characters is used as it is.
pub proof fn law_well_formed_identifiers_are_kept(id: Seq<char>)
    requires
        forall|k: int| 0 <= k < id.len() ==> #[trigger] is_identifier_char(id[k]),
    ensures
        spec_sanitize_identifier(id) == id,
{
    assert(spec_sanitize_identifier(id) =~= id);
}

/// Mutex names live in the session-local `Local\` namespace and pipe names
/// under `\\.\pipe\`.
pub proof fn law_names_are_scoped(id: Seq<char>)
    ensures
        (mutex_prefix() + spec_sanitize_identifier(id)).take(6) == "Local\\"@,
        (pipe_prefix() + spec_sanitize_identifier(id)).take(9) == "\\\\.\\pipe\\"@,
{
    reveal_strlit("Local\\florui-single-instance-");
    reveal_strlit("\\\\.\\pipe\\florui-single-instance-");
    reveal_strlit("Local\\");
    reveal_strlit("\\\\.\\pipe\\");
    assert((mutex_prefix() + spec_sanitize_identifier(id)).take(6) =~= "Local\\"@);
    assert((pipe_prefix() + spec_sanitize_identifier(id)).take(9) =~= "\\\\.\\pipe\\"@);
}

/// Identifiers that sanitize differently (in particular, two different
/// well-formed identifiers such as a development and a production one)
/// never share a mutex or a pipe name, and no mutex name is a pipe name.
pub proof fn law_distinct_identifiers_never_collide(a: Seq<char>, b: Seq<char>)
    requires
        spec_sanitize_identifier(a) != spec_sanitize_identifier(b),
    ensures
        mutex_prefix() + spec_sanitize_identifier(a) != mutex_prefix() + spec_sanitize_identifier(b),
        pipe_prefix() + spec_sanitize_identifier(a) != pipe_prefix() + spec_sanitize_identifier(b),
        mutex_prefix() + spec_sanitize_identifier(a) != pipe_prefix() + spec_sanitize_identifier(b),
{
    reveal_strlit("Local\\florui-single-instance-");
    reveal_strlit("\\\\.\\pipe\\florui-single-instance-");
    let sa = spec_sanitize_identifier(a);
    let sb = spec_sanitize_identifier(b);
    let m = mutex_prefix();
    let p = pipe_prefix();
    if m + sa == m + sb {
        assert((m + sa).skip(m.len() as int) =~= sa);
        assert((m + sb).skip(m.len() as int) =~= sb);
    }
    if p + sa == p + sb {
        assert((p + sa).skip(p.len() as int) =~= sa);
        assert((p + sb).skip(p.len() as int) =~= sb);
    }
    assert((m + sa)[0] != (p + sb)[0]);
}

/// The last `MAX_QUEUED_EVENTS` entries of `s` (all of them if fewer).
pub open spec fn latest(s: Seq<ActivationEvent>) -> Seq<ActivationEvent> {
    if s.len() > MAX_QUEUED_EVENTS {
        s.skip(s.len() - MAX_QUEUED_EVENTS)
    } else {
        s
    }
}

/// The queue after each of `events` arrives, in order.
pub open spec fn spec_push_all(queue: Seq<ActivationEvent>, events: Seq<ActivationEvent>) -> Seq<
    ActivationEvent,
>
    decreases events.len(),
{
    if events.len() == 0 {
        queue
    } else {
        spec_push_all(spec_push(queue, events[0]), events.drop_first())
    }
}

proof fn lemma_latest_of_latest(s: Seq<ActivationEvent>, t: Seq<ActivationEvent>)
    ensures
        latest(latest(s) + t) == latest(s + t),
{
    if s.len() > MAX_QUEUED_EVENTS {
        let ls = latest(s);
        let n = (s + t).len();
        let m = (ls + t).len();
        assert(m >= MAX_QUEUED_EVENTS);
        assert(latest(ls + t) =~= latest(s + t)) by {
            assert forall|i: int| 0 <= i < MAX_QUEUED_EVENTS implies #[trigger] latest(ls + t)[i]
                == latest(s + t)[i] by {
                let j = i + m - MAX_QUEUED_EVENTS;
                let k = i + n - MAX_QUEUED_EVENTS;
                if j < ls.len() {
                    assert((ls + t)[j] == ls[j]);
                    assert(ls[j] == s[j + s.len() - MAX_QUEUED_EVENTS]);
                    assert((s + t)[k] == s[k]);
                } else {
                    assert((ls + t)[j] == t[j - ls.len()]);
                    assert((s + t)[k] == t[k - s.len()]);
                }
            }
        }
    }
}

/// However many events arrive, a queue that starts bounded holds exactly
/// the latest `MAX_QUEUED_EVENTS` of everything it ever held, oldest first:
/// overflow drops the oldest events, never the newest, and never reorders.
pub proof fn law_queue_keeps_the_latest_events(queue: Seq<ActivationEvent>, events: Seq<ActivationEvent>)
    requires
        queue.len() <= MAX_QUEUED_EVENTS,
    ensures
        spec_push_all(queue, events) == latest(queue + events),
        spec_push_all(queue, events).len() <= MAX_QUEUED_EVENTS,
    decreases events.len(),
{
    if events.len() == 0 {
        assert(queue + events =~= queue);
    } else {
        let e = events[0];
        let rest = events.drop_first();
        let q1 = spec_push(queue, e);
        assert(q1 == latest(queue.push(e))) by {
            if queue.len() >= MAX_QUEUED_EVENTS {
                assert(queue.drop_first().push(e) =~= queue.push(e).skip(1));
            }
        }
        law_queue_keeps_the_latest_events(q1, rest);
        lemma_latest_of_latest(queue.push(e), rest);
        assert(queue.push(e) + rest =~= queue + events);
    }
}

} // verus!

verus! {

/// What a single-instance run did: ran as the primary, handed its launch
/// to the already-running primary, or failed to hand it off (the launch
/// is handed back, never silently dropped).
#[derive(Debug)]
pub enum RunOutcome {
    Ran,
    HandedOff,
    HandoffFailed(ActivationEvent),
}

/// The outcome of a second launch once its hand-off to the running
/// primary finished: `HandedOff` only when the primary acknowledged it,
/// otherwise the launch event is handed back to the caller.
pub fn handoff_outcome(delivered: bool, launch_event: ActivationEvent) -> (outcome: RunOutcome)
    ensures
        delivered ==> outcome is HandedOff,
        !delivered ==> outcome == RunOutcome::HandoffFailed(launch_event),
{
    if delivered {
        RunOutcome::HandedOff
    } else {
        RunOutcome::HandoffFailed(launch_event)
    }
}

} // verus!
