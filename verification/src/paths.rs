//! Paths as text: their parts, the form in which they are shown, and the keys
//! by which directories are compared.

use std::path::Path;

use vstd::prelude::*;
use vstd::string::*;

use crate::text::{
    ascii_lower, begins_with, blank, chars_of, is_among, opt_text, swap_char, swapped, text_of, texts,
    to_ascii_lower, trimmed, without_prefix, CharClass,
};

verus! {

// ---------------------------------------------------------------------------
// The path syntax of the machine
// ---------------------------------------------------------------------------

/// The path syntax of the machine the library runs on. The only way to have
/// one is [`PathRules::of_this_machine`], so it always is the syntax that the
/// standard library's `Path` follows.
#[derive(Clone, Copy)]
pub struct PathRules {
    windows: bool,
}

/// The last part of a path, as `Path::file_name` gives it.
pub uninterp spec fn path_file_name(path: Seq<char>, windows: bool) -> Option<Seq<char>>;

/// A path without its last part, as `Path::parent` gives it.
pub uninterp spec fn path_parent(path: Seq<char>, windows: bool) -> Option<Seq<char>>;

/// The parts of a path, as `Path::components` gives them.
pub uninterp spec fn path_components(path: Seq<char>, windows: bool) -> Seq<Seq<char>>;

/// A path relative to another, as `Path::strip_prefix` gives it.
pub uninterp spec fn path_below(path: Seq<char>, base: Seq<char>, windows: bool) -> Option<
    Seq<char>,
>;

/// A text that is one ordinary file name in every path syntax.
pub open spec fn is_plain_name(s: Seq<char>) -> bool {
    &&& s.len() > 0
    &&& forall|i: int|
        0 <= i < s.len() ==> (#[trigger] s[i]) != '/' && s[i] != '\\' && s[i] != ':'
    &&& s != seq!['.']
    &&& s != seq!['.', '.']
}

/// `std::path::is_separator` tells the separators of the machine's paths: the
/// slash is one everywhere, and nothing but the backslash can be another.
pub assume_specification[ std::path::is_separator ](c: char) -> (r: bool)
    ensures
        c == '/' ==> r,
        c != '/' && c != '\\' ==> !r,
;

impl PathRules {
    /// Whether paths are written as on Windows.
    pub closed spec fn windows(self) -> bool {
        self.windows
    }

    /// The path syntax of this machine: that of Windows exactly if
    /// `std::path::is_separator` answers that the backslash separates the
    /// parts of a path. Which answer it gives depends on the machine.
    pub fn of_this_machine() -> (r: PathRules)
        ensures
            call_ensures(std::path::is_separator, ('\\',), r.windows()),
    {
        PathRules { windows: std::path::is_separator('\\') }
    }

    /// Whether paths are written as on Windows.
    pub fn is_windows(self) -> (r: bool)
        ensures
            r == self.windows(),
    {
        self.windows
    }

    /// `Path::file_name` depends on the path and the machine's path syntax
    /// alone; an ordinary name is its own last part.
    #[verifier::external_body]
    pub(crate) fn file_name(self, path: &str) -> (r: Option<String>)
        ensures
            opt_text(r) == path_file_name(path@, self.windows()),
            is_plain_name(path@) ==> opt_text(r) == Some(path@),
    {
        Path::new(path).file_name().map(|name| name.to_string_lossy().into_owned())
    }

    /// `Path::parent` depends on the path and the machine's path syntax alone.
    #[verifier::external_body]
    pub(crate) fn parent(self, path: &str) -> (r: Option<String>)
        ensures
            opt_text(r) == path_parent(path@, self.windows()),
    {
        Path::new(path).parent().map(|parent| parent.to_string_lossy().into_owned())
    }

    /// `Path::components` depends on the path and the machine's path syntax
    /// alone.
    #[verifier::external_body]
    pub(crate) fn components(self, path: &str) -> (r: Vec<String>)
        ensures
            texts(r@) == path_components(path@, self.windows()),
    {
        Path::new(path)
            .components()
            .map(|part| part.as_os_str().to_string_lossy().into_owned())
            .collect()
    }

    /// `Path::strip_prefix` depends on the two paths and the machine's path
    /// syntax alone.
    #[verifier::external_body]
    pub(crate) fn below(self, path: &str, base: &str) -> (r: Option<String>)
        ensures
            opt_text(r) == path_below(path@, base@, self.windows()),
    {
        Path::new(path).strip_prefix(base).ok().map(|rest| rest.to_string_lossy().into_owned())
    }
}

// ---------------------------------------------------------------------------
// Stem and extension of a file name
// ---------------------------------------------------------------------------

/// The position of the last dot, or -1.
pub open spec fn last_dot(name: Seq<char>) -> int
    decreases name.len(),
{
    if name.len() == 0 {
        -1
    } else if name.last() == '.' {
        name.len() - 1
    } else {
        last_dot(name.drop_last())
    }
}

/// A file name up to its last dot; all of it where it has no dot but a leading
/// one.
pub open spec fn stem_of_name(name: Seq<char>) -> Seq<char> {
    if last_dot(name) <= 0 {
        name
    } else {
        name.take(last_dot(name))
    }
}

/// What follows the last dot of a file name; nothing where it has no dot but a
/// leading one.
pub open spec fn extension_of_name(name: Seq<char>) -> Option<Seq<char>> {
    if last_dot(name) <= 0 {
        None
    } else {
        Some(name.skip(last_dot(name) + 1))
    }
}

/// The stem of the last part of a path; the path itself where it has none.
pub open spec fn stem(path: Seq<char>, windows: bool) -> Seq<char> {
    match path_file_name(path, windows) {
        Some(name) => stem_of_name(name),
        None => path,
    }
}

/// The extension of the last part of a path.
pub open spec fn extension(path: Seq<char>, windows: bool) -> Option<Seq<char>> {
    match path_file_name(path, windows) {
        Some(name) => extension_of_name(name),
        None => None,
    }
}

/// The position of the last dot of a list of characters.
fn find_last_dot(chars: &Vec<char>) -> (r: Option<usize>)
    ensures
        last_dot(chars@) == (match r {
            Some(at) => at as int,
            None => -1,
        }),
        r matches Some(at) ==> at < chars@.len(),
{
    let mut end: usize = chars.len();
    proof {
        assert(chars@.take(chars@.len() as int) =~= chars@);
    }
    while end > 0
        invariant
            end <= chars@.len(),
            last_dot(chars@) == last_dot(chars@.take(end as int)),
        decreases end,
    {
        proof {
            assert(chars@.take(end as int).drop_last() =~= chars@.take(end - 1));
            assert(chars@.take(end as int).last() == chars@[end - 1]);
        }
        if chars[end - 1] == '.' {
            return Some(end - 1);
        }
        end -= 1;
    }
    None
}

/// A file name up to its last dot.
pub fn name_stem(name: &str) -> (r: String)
    ensures
        r@ == stem_of_name(name@),
{
    let chars = chars_of(name);
    match find_last_dot(&chars) {
        Some(at) => {
            if at == 0 {
                name.to_string()
            } else {
                let r = text_of(&chars, 0, at);
                proof {
                    assert(r@ =~= name@.take(at as int));
                }
                r
            }
        },
        None => name.to_string(),
    }
}

/// What follows the last dot of a file name.
pub fn name_extension(name: &str) -> (r: Option<String>)
    ensures
        opt_text(r) == extension_of_name(name@),
{
    let chars = chars_of(name);
    match find_last_dot(&chars) {
        Some(at) => {
            if at == 0 {
                None
            } else {
                let size = chars.len();
                let r = text_of(&chars, at + 1, size);
                proof {
                    assert(r@ =~= name@.skip(at + 1));
                }
                Some(r)
            }
        },
        None => None,
    }
}

/// The stem of the last part of a path; the path itself where it has none.
pub fn file_stem(path: &str, rules: PathRules) -> (r: String)
    ensures
        r@ == stem(path@, rules.windows()),
        is_plain_name(path@) ==> r@ == stem_of_name(path@),
{
    match rules.file_name(path) {
        Some(name) => name_stem(name.as_str()),
        None => path.to_string(),
    }
}

/// The extension of the last part of a path.
pub fn file_extension(path: &str, rules: PathRules) -> (r: Option<String>)
    ensures
        opt_text(r) == extension(path@, rules.windows()),
        is_plain_name(path@) ==> opt_text(r) == extension_of_name(path@),
{
    match rules.file_name(path) {
        Some(name) => name_extension(name.as_str()),
        None => None,
    }
}

/// The extensions of media files.
pub open spec fn media_extensions() -> Seq<Seq<char>> {
    seq![
        "mkv"@,
        "mp4"@,
        "avi"@,
        "mov"@,
        "wmv"@,
        "flv"@,
        "m4v"@,
        "ts"@,
        "m2ts"@,
        "webm"@,
        "mpg"@,
        "mpeg"@,
    ] + audio_extensions()
}

/// The extensions of audio files.
pub open spec fn audio_extensions() -> Seq<Seq<char>> {
    seq!["mp3"@, "flac"@, "m4a"@, "aac"@, "ogg"@, "opus"@, "wav"@, "ape"@]
}

/// Whether a path has one of the extensions, in any case.
pub open spec fn has_extension(path: Seq<char>, wanted: Seq<Seq<char>>, windows: bool) -> bool {
    match extension(path, windows) {
        Some(ext) => wanted.contains(ascii_lower(ext)),
        None => false,
    }
}

fn audio_extension_list() -> (r: Vec<String>)
    ensures
        texts(r@) == audio_extensions(),
{
    let r = vec![
        "mp3".to_string(),
        "flac".to_string(),
        "m4a".to_string(),
        "aac".to_string(),
        "ogg".to_string(),
        "opus".to_string(),
        "wav".to_string(),
        "ape".to_string(),
    ];
    proof {
        assert(texts(r@) =~= audio_extensions());
    }
    r
}

fn media_extension_list() -> (r: Vec<String>)
    ensures
        texts(r@) == media_extensions(),
{
    let mut r = vec![
        "mkv".to_string(),
        "mp4".to_string(),
        "avi".to_string(),
        "mov".to_string(),
        "wmv".to_string(),
        "flv".to_string(),
        "m4v".to_string(),
        "ts".to_string(),
        "m2ts".to_string(),
        "webm".to_string(),
        "mpg".to_string(),
        "mpeg".to_string(),
    ];
    let mut audio = audio_extension_list();
    let ghost heard = texts(audio@);
    r.append(&mut audio);
    proof {
        assert(texts(r@) =~= media_extensions());
    }
    r
}

/// Whether a path is that of a media file, by its extension.
pub fn is_media_file(path: &str, rules: PathRules) -> (r: bool)
    ensures
        r == has_extension(path@, media_extensions(), rules.windows()),
{
    match file_extension(path, rules) {
        Some(ext) => {
            let lower = to_ascii_lower(ext.as_str());
            is_among(lower.as_str(), &media_extension_list())
        },
        None => false,
    }
}

/// Whether a file name is that of an audio file, by its extension.
pub fn is_audio_file_name(file_name: &str, rules: PathRules) -> (r: bool)
    ensures
        r == has_extension(file_name@, audio_extensions(), rules.windows()),
{
    match file_extension(file_name, rules) {
        Some(ext) => {
            let lower = to_ascii_lower(ext.as_str());
            is_among(lower.as_str(), &audio_extension_list())
        },
        None => false,
    }
}

// ---------------------------------------------------------------------------
// Shown form and keys
// ---------------------------------------------------------------------------

/// A path as it is shown: on Windows without the prefix of verbatim paths.
pub open spec fn shown_path(path: Seq<char>, windows: bool) -> Seq<char> {
    if windows && r"\\?\UNC\"@.is_prefix_of(path) {
        r"\\"@ + path.skip(r"\\?\UNC\"@.len() as int)
    } else if windows && r"\\?\"@.is_prefix_of(path) {
        path.skip(r"\\?\"@.len() as int)
    } else {
        path
    }
}

/// `s` without slashes at its end; a lone slash stays.
pub open spec fn without_end_slashes(s: Seq<char>) -> Seq<char>
    decreases s.len(),
{
    if s.len() > 1 && s.last() == '/' {
        without_end_slashes(s.drop_last())
    } else {
        s
    }
}

/// The key of a resolved path: its shown form with slashes only, none at the
/// end, and on Windows in lower case.
pub open spec fn path_key(path: Seq<char>, windows: bool) -> Seq<char> {
    let plain = without_end_slashes(swapped(shown_path(path, windows), '\\', '/'));
    if windows {
        ascii_lower(plain)
    } else {
        plain
    }
}

/// The directory with key `candidate` lies somewhere below the one with key
/// `parent`.
pub open spec fn is_below(candidate: Seq<char>, parent: Seq<char>) -> bool {
    parent.push('/').is_prefix_of(candidate)
}

/// A path as it is shown.
pub fn display_path_string(path: &str, rules: PathRules) -> (r: String)
    ensures
        r@ == shown_path(path@, rules.windows()),
{
    if rules.is_windows() {
        if let Some(network_path) = without_prefix(path, r"\\?\UNC\") {
            return r"\\".to_string().concat(network_path.as_str());
        }
        if let Some(local_path) = without_prefix(path, r"\\?\") {
            return local_path;
        }
    }
    path.to_string()
}

/// The key of a resolved path.
pub fn normalized_path_string(path: &str, rules: PathRules) -> (r: String)
    ensures
        r@ == path_key(path@, rules.windows()),
{
    let shown = display_path_string(path, rules);
    let slashed = swap_char(shown.as_str(), '\\', '/');
    let chars = chars_of(slashed.as_str());
    let mut end: usize = chars.len();
    proof {
        assert(chars@.take(chars@.len() as int) =~= chars@);
    }
    while end > 1 && chars[end - 1] == '/'
        invariant
            end <= chars@.len(),
            without_end_slashes(chars@) == without_end_slashes(chars@.take(end as int)),
        decreases end,
    {
        proof {
            assert(chars@.take(end as int).drop_last() =~= chars@.take(end - 1));
        }
        end -= 1;
    }
    let plain = text_of(&chars, 0, end);
    proof {
        assert(plain@ =~= chars@.take(end as int));
    }
    if rules.is_windows() {
        to_ascii_lower(plain.as_str())
    } else {
        plain
    }
}

/// Whether the directory with key `candidate` lies somewhere below the one
/// with key `parent`.
pub fn is_descendant_key(candidate: &str, parent: &str) -> (r: bool)
    ensures
        r == is_below(candidate@, parent@),
{
    match without_prefix(candidate, parent) {
        Some(remaining) => {
            let r = begins_with(remaining.as_str(), "/");
            proof {
                reveal_strlit("/");
                let p = parent@;
                let c = candidate@;
                if is_below(c, p) {
                    assert(remaining@[0] == p.push('/')[p.len() as int]);
                    assert("/"@.is_prefix_of(remaining@));
                }
                if "/"@.is_prefix_of(remaining@) {
                    assert("/"@[0] == remaining@[0]);
                    assert forall|i: int| 0 <= i < p.len() + 1 implies p.push('/')[i] == c[i] by {
                        if i < p.len() {
                            assert(p[i] == c[i]);
                        } else {
                            assert(c[i] == remaining@[0]);
                        }
                    }
                    assert(is_below(c, p));
                }
            }
            r
        },
        None => {
            proof {
                if is_below(candidate@, parent@) {
                    assert forall|i: int| 0 <= i < parent@.len() implies parent@[i]
                        == candidate@[i] by {
                        assert(parent@.push('/')[i] == candidate@[i]);
                    }
                    assert(parent@.is_prefix_of(candidate@));
                }
            }
            false
        },
    }
}

/// A path as it was given, and the path that it was found to be.
pub struct ResolvedPath {
    pub given: String,
    pub resolved: String,
}

/// The keys of the paths that were not given blank, in order.
pub open spec fn keys_of(paths: Seq<ResolvedPath>, windows: bool) -> Seq<Seq<char>>
    decreases paths.len(),
{
    if paths.len() == 0 {
        Seq::empty()
    } else {
        let before = keys_of(paths.drop_last(), windows);
        if trimmed(paths.last().given@, CharClass::Space).len() == 0 {
            before
        } else {
            before.push(path_key(paths.last().resolved@, windows))
        }
    }
}

/// The directory with this key is one of the excluded ones or lies below one.
pub open spec fn is_excluded(key: Seq<char>, excluded: Seq<Seq<char>>) -> bool {
    exists|i: int|
        0 <= i < excluded.len() && (key == #[trigger] excluded[i] || is_below(key, excluded[i]))
}

/// The keys of the directories that a scan leaves out.
pub fn build_excluded_roots(paths: &Vec<ResolvedPath>, rules: PathRules) -> (r: Vec<String>)
    ensures
        texts(r@) == keys_of(paths@, rules.windows()),
{
    let mut keys: Vec<String> = Vec::new();
    let mut i: usize = 0;
    while i < paths.len()
        invariant
            i <= paths@.len(),
            texts(keys@) =~= keys_of(paths@.take(i as int), rules.windows()),
        decreases paths@.len() - i,
    {
        proof {
            assert(paths@.take(i + 1).drop_last() =~= paths@.take(i as int));
        }
        if !blank(paths[i].given.as_str()) {
            keys.push(normalized_path_string(paths[i].resolved.as_str(), rules));
        }
        i += 1;
    }
    proof {
        assert(paths@.take(paths@.len() as int) =~= paths@);
    }
    keys
}

/// Whether a resolved path is excluded, with everything below it.
pub fn is_excluded_path(path: &str, excluded_roots: &Vec<String>, rules: PathRules) -> (r: bool)
    ensures
        r == is_excluded(path_key(path@, rules.windows()), texts(excluded_roots@)),
{
    let candidate = normalized_path_string(path, rules);
    let ghost all = texts(excluded_roots@);
    let mut i: usize = 0;
    while i < excluded_roots.len()
        invariant
            i <= excluded_roots@.len(),
            all == texts(excluded_roots@),
            candidate@ == path_key(path@, rules.windows()),
            forall|j: int|
                0 <= j < i ==> candidate@ != #[trigger] all[j] && !is_below(candidate@, all[j]),
        decreases excluded_roots@.len() - i,
    {
        proof {
            assert(all[i as int] == excluded_roots@[i as int]@);
        }
        if candidate == excluded_roots[i] || is_descendant_key(
            candidate.as_str(),
            excluded_roots[i].as_str(),
        ) {
            return true;
        }
        i += 1;
    }
    false
}

// ---------------------------------------------------------------------------
// Laws
// ---------------------------------------------------------------------------

/// What lies below a directory lies below every directory that this one lies
/// below.
pub proof fn below_is_transitive(a: Seq<char>, b: Seq<char>, c: Seq<char>)
    requires
        is_below(a, b),
        is_below(b, c),
    ensures
        is_below(a, c),
{
    assert forall|i: int| 0 <= i < c.push('/').len() implies c.push('/')[i] == a[i] by {
        assert(c.push('/')[i] == b[i]);
        assert(b.push('/')[i] == a[i]);
    }
}

/// No directory lies below itself.
pub proof fn nothing_is_below_itself(a: Seq<char>)
    ensures
        !is_below(a, a),
{
}

/// An excluded directory is excluded with everything below it.
pub proof fn exclusion_takes_the_subtree(
    key: Seq<char>,
    inner: Seq<char>,
    excluded: Seq<Seq<char>>,
)
    requires
        is_excluded(key, excluded),
        is_below(inner, key),
    ensures
        is_excluded(inner, excluded),
{
    let i = choose|i: int|
        0 <= i < excluded.len() && (key == #[trigger] excluded[i] || is_below(key, excluded[i]));
    if key != excluded[i] {
        below_is_transitive(inner, key, excluded[i]);
    }
    assert(inner == excluded[i] || is_below(inner, excluded[i]));
}

} // verus!
