//! What the desktop front end asks of the engine before an extraction: how
//! the application was launched, and where an archive is extracted to by
//! default.

use vstd::prelude::*;
use vstd::utf8::encode_utf8;

use crate::paths::{file_name_of, join_path, parent_of, path_file_name, path_join, path_parent};
use crate::text::{
    ascii_lowercase, chars_of, ends_with, ends_with_chars, lowercase_chars, starts_with,
    starts_with_chars, str_eq, string_from_chars,
};

verus! {

broadcast use {vstd::string::group_string_axioms, vstd::slice::group_slice_axioms};

// ---------------------------------------------------------------------------
// Default output folders
// ---------------------------------------------------------------------------

/// The archive suffixes that are stripped from a file name, longest
/// compound suffixes first.
pub open spec fn archive_suffixes() -> Seq<Seq<char>> {
    seq![
        ".tar.gz"@,
        ".tar.bz2"@,
        ".tar.xz"@,
        ".tgz"@,
        ".tbz2"@,
        ".txz"@,
        ".zip"@,
        ".7z"@,
        ".rar"@,
        ".tar"@,
        ".gz"@,
        ".bz2"@,
        ".xz"@,
    ]
}

/// Suffix `i` of the list.
fn archive_suffix(i: usize) -> (r: &'static str)
    requires
        i < 13,
    ensures
        r@ == archive_suffixes()[i as int],
{
    match i {
        0 => ".tar.gz",
        1 => ".tar.bz2",
        2 => ".tar.xz",
        3 => ".tgz",
        4 => ".tbz2",
        5 => ".txz",
        6 => ".zip",
        7 => ".7z",
        8 => ".rar",
        9 => ".tar",
        10 => ".gz",
        11 => ".bz2",
        _ => ".xz",
    }
}

/// The index of the last `.` in `s`.
pub open spec fn last_dot(s: Seq<char>) -> Option<int>
    decreases s.len(),
{
    if s.len() == 0 {
        None
    } else if s.last() == '.' {
        Some(s.len() - 1)
    } else {
        last_dot(s.drop_last())
    }
}

/// The stem of `file_name` by the suffixes from index `i` of the list on:
/// the first suffix it ends with, in any letter case, is cut off, unless
/// nothing would remain; without such a suffix, what precedes the last `.`,
/// and `Extracted` for a name without `.`.
pub open spec fn output_stem_from(file_name: Seq<char>, i: nat) -> Seq<char>
    decreases 13 - i,
{
    if i >= 13 {
        match last_dot(file_name) {
            Some(k) => file_name.take(k),
            None => "Extracted"@,
        }
    } else {
        let suffix = archive_suffixes()[i as int];
        if ends_with(ascii_lowercase(file_name), suffix) && encode_utf8(file_name).len()
            > suffix.len() {
            file_name.take(file_name.len() - suffix.len())
        } else {
            output_stem_from(file_name, i + 1)
        }
    }
}

/// The name of the folder an archive called `file_name` is extracted to.
pub open spec fn output_stem(file_name: Seq<char>) -> Seq<char> {
    output_stem_from(file_name, 0)
}

/// Every character takes at least one byte in UTF-8.
proof fn lemma_utf8_at_least_one_byte_per_char(chars: Seq<char>)
    ensures
        encode_utf8(chars).len() >= chars.len(),
    decreases chars.len(),
{
    if chars.len() > 0 {
        lemma_utf8_at_least_one_byte_per_char(chars.drop_first());
    }
}

/// A text that ends with `a` does not end with a `b` that differs from `a`
/// in the `k`-th character from the end.
proof fn lemma_suffixes_clash(t: Seq<char>, a: Seq<char>, b: Seq<char>, k: int)
    requires
        ends_with(t, a),
        0 <= k < a.len(),
        k < b.len(),
        a[a.len() - 1 - k] != b[b.len() - 1 - k],
    ensures
        !ends_with(t, b),
{
    assert(t.subrange(t.len() - a.len(), t.len() as int)[a.len() - 1 - k] == t[t.len() - 1 - k]);
    if ends_with(t, b) {
        assert(t.subrange(t.len() - b.len(), t.len() as int)[b.len() - 1 - k] == t[t.len() - 1 - k]);
    }
}

/// The stem search passes over suffix `j` when the name does not end with it.
proof fn lemma_stem_passes(name: Seq<char>, j: nat)
    requires
        j < 13,
        !ends_with(ascii_lowercase(name), archive_suffixes()[j as int]),
    ensures
        output_stem_from(name, j) == output_stem_from(name, j + 1),
{
}

/// The stem search passes over the first `i` suffixes when the name ends
/// with none of them.
proof fn lemma_stem_passes_up_to(name: Seq<char>, i: nat)
    requires
        i <= 13,
        forall|m: int| 0 <= m < i ==> !ends_with(ascii_lowercase(name), #[trigger] archive_suffixes()[m]),
    ensures
        output_stem(name) == output_stem_from(name, i),
    decreases i,
{
    if i > 0 {
        lemma_stem_passes_up_to(name, (i - 1) as nat);
        lemma_stem_passes(name, (i - 1) as nat);
    }
}

/// A file name made of a non-empty stem and one of the suffixes `.tar.gz`,
/// `.tar.bz2`, `.tar.xz`, `.tgz`, `.tbz2`, `.txz`, `.zip`, `.7z` or `.rar`,
/// in any letter case, is extracted to a folder named after the stem
/// alone: a compound TAR suffix is cut off as a whole.
pub proof fn lemma_archive_suffix_is_cut_off(stem: Seq<char>, suffix: Seq<char>)
    requires
        stem.len() > 0,
        ascii_lowercase(suffix) == ".tar.gz"@ || ascii_lowercase(suffix) == ".tar.bz2"@
            || ascii_lowercase(suffix) == ".tar.xz"@ || ascii_lowercase(suffix) == ".tgz"@
            || ascii_lowercase(suffix) == ".tbz2"@ || ascii_lowercase(suffix) == ".txz"@
            || ascii_lowercase(suffix) == ".zip"@ || ascii_lowercase(suffix) == ".7z"@
            || ascii_lowercase(suffix) == ".rar"@,
    ensures
        output_stem(stem + suffix) == stem,
{
    reveal_strlit(".tar.gz");
    reveal_strlit(".tar.bz2");
    reveal_strlit(".tar.xz");
    reveal_strlit(".tgz");
    reveal_strlit(".tbz2");
    reveal_strlit(".txz");
    reveal_strlit(".zip");
    reveal_strlit(".7z");
    reveal_strlit(".rar");
    let name = stem + suffix;
    let low = ascii_lowercase(name);
    let ls = ascii_lowercase(suffix);
    assert(low =~= ascii_lowercase(stem) + ls);
    assert(low.subrange(low.len() - ls.len(), low.len() as int) =~= ls);
    assert(ends_with(low, ls));
    lemma_utf8_at_least_one_byte_per_char(name);
    assert(name.take(name.len() - suffix.len()) =~= stem);
    let sfx = archive_suffixes();
    let i: int = if ls == sfx[0] {
        0
    } else if ls == sfx[1] {
        1
    } else if ls == sfx[2] {
        2
    } else if ls == sfx[3] {
        3
    } else if ls == sfx[4] {
        4
    } else if ls == sfx[5] {
        5
    } else if ls == sfx[6] {
        6
    } else if ls == sfx[7] {
        7
    } else {
        8
    };
    assert(ls == sfx[i]);
    // Each earlier suffix differs from this one near the end.
    assert forall|j: int| 0 <= j < i implies !ends_with(low, #[trigger] sfx[j]) by {
        let a = sfx[i];
        let b = sfx[j];
        if a[a.len() - 1] != b[b.len() - 1] {
            lemma_suffixes_clash(low, a, b, 0);
        } else if a[a.len() - 2] != b[b.len() - 2] {
            lemma_suffixes_clash(low, a, b, 1);
        } else if a[a.len() - 3] != b[b.len() - 3] {
            lemma_suffixes_clash(low, a, b, 2);
        } else {
            lemma_suffixes_clash(low, a, b, 3);
        }
    }
    lemma_stem_passes_up_to(name, i as nat);
    assert(output_stem_from(name, i as nat) == name.take(name.len() - sfx[i].len()));
}

/// The index of the last `.` in `s`.
fn find_last_dot(s: &[char]) -> (r: Option<usize>)
    ensures
        match r {
            Some(k) => k < s.len() && last_dot(s@) == Some(k as int),
            None => last_dot(s@) is None,
        },
{
    let mut j: usize = s.len();
    assert(s@.take(j as int) =~= s@);
    while j > 0
        invariant
            j <= s.len(),
            last_dot(s@) == last_dot(s@.take(j as int)),
        decreases j,
    {
        assert(s@.take(j as int).drop_last() =~= s@.take(j - 1));
        if s[j - 1] == '.' {
            return Some(j - 1);
        }
        j -= 1;
    }
    None
}

/// The name of the folder an archive called `file_name` is extracted to:
/// `photos.zip` goes to `photos` and `backup.tar.gz` to `backup`.
pub fn archive_output_stem(file_name: &str) -> (r: String)
    ensures
        r@ == output_stem(file_name@),
{
    let chars = chars_of(file_name);
    let lower = lowercase_chars(chars.as_slice());
    let byte_len = file_name.as_bytes().len();
    let mut i: usize = 0;
    while i < 13
        invariant
            i <= 13,
            chars@ == file_name@,
            lower@ == ascii_lowercase(file_name@),
            byte_len == encode_utf8(file_name@).len(),
            output_stem(file_name@) == output_stem_from(file_name@, i as nat),
        decreases 13 - i,
    {
        let suffix = chars_of(archive_suffix(i));
        if ends_with_chars(lower.as_slice(), suffix.as_slice()) && byte_len > suffix.len() {
            let keep = chars.len() - suffix.len();
            let stem = vstd::slice::slice_subrange(chars.as_slice(), 0, keep);
            return string_from_chars(stem);
        }
        i += 1;
    }
    match find_last_dot(chars.as_slice()) {
        Some(k) => string_from_chars(vstd::slice::slice_subrange(chars.as_slice(), 0, k)),
        None => String::from_str("Extracted"),
    }
}

/// The folder beside `archive` named after its stem, if `archive` has a
/// parent and a file name.
pub open spec fn spec_default_output_folder(archive: Seq<char>) -> Option<Seq<char>> {
    match (path_parent(archive), path_file_name(archive)) {
        (Some(parent), Some(name)) => Some(path_join(parent, output_stem(name))),
        _ => None,
    }
}

/// The folder an archive is extracted to by default: beside it, named
/// after its stem.
pub fn default_output_folder(archive: &str) -> (r: Option<String>)
    ensures
        match r {
            Some(o) => spec_default_output_folder(archive@) == Some(o@),
            None => spec_default_output_folder(archive@) is None,
        },
{
    let parent = match parent_of(archive) {
        Some(p) => p,
        None => return None,
    };
    let name = match file_name_of(archive) {
        Some(n) => n,
        None => return None,
    };
    let stem = archive_output_stem(name.as_str());
    Some(join_path(parent.as_str(), stem.as_str()))
}

/// The folder an archive is extracted to for a requested action:
/// `extract-here` extracts into the archive's own folder, anything else
/// into the default output folder.
pub open spec fn spec_output_for_action(archive: Seq<char>, action: Seq<char>) -> Option<Seq<char>> {
    if action == "extract-here"@ {
        path_parent(archive)
    } else {
        spec_default_output_folder(archive)
    }
}

/// The folder an archive is extracted to for a requested action.
pub fn default_output_for_action(archive_path: &str, action: &str) -> (r: Option<String>)
    ensures
        match r {
            Some(o) => spec_output_for_action(archive_path@, action@) == Some(o@),
            None => spec_output_for_action(archive_path@, action@) is None,
        },
{
    if str_eq(action, "extract-here") {
        return parent_of(archive_path);
    }
    default_output_folder(archive_path)
}

/// The default output folder of the archive at `path`; an archive path
/// without a parent folder is refused with a message.
pub fn default_output_dir_for_archive(path: String) -> (r: Result<String, String>)
    ensures
        match spec_default_output_folder(path@) {
            Some(o) => r matches Ok(s) && s@ == o,
            None => r matches Err(m) && m@ == "Archive path does not have a parent directory."@,
        },
{
    match default_output_folder(path.as_str()) {
        Some(o) => Ok(o),
        None => Err(String::from_str("Archive path does not have a parent directory.")),
    }
}

// ---------------------------------------------------------------------------
// Launch arguments
// ---------------------------------------------------------------------------

/// What the application was launched to do.
#[derive(Debug)]
pub struct LaunchContext {
    pub archive_path: Option<String>,
    pub output_dir: Option<String>,
    pub requested_action: String,
}

/// A launch context as character sequences.
pub struct LaunchView {
    pub archive_path: Option<Seq<char>>,
    pub output_dir: Option<Seq<char>>,
    pub requested_action: Seq<char>,
}

/// The view of an optional string.
pub open spec fn opt_view(o: Option<String>) -> Option<Seq<char>> {
    match o {
        Some(s) => Some(s@),
        None => None,
    }
}

impl View for LaunchContext {
    type V = LaunchView;

    open spec fn view(&self) -> LaunchView {
        LaunchView {
            archive_path: opt_view(self.archive_path),
            output_dir: opt_view(self.output_dir),
            requested_action: self.requested_action@,
        }
    }
}

impl Default for LaunchContext {
    fn default() -> (r: Self)
        ensures
            r@ == (LaunchView { archive_path: None, output_dir: None, requested_action: Seq::empty() }),
    {
        LaunchContext { archive_path: None, output_dir: None, requested_action: String::new() }
    }
}

/// The element after index `i`, if any.
pub open spec fn arg_after(args: Seq<Seq<char>>, i: int) -> Option<Seq<char>> {
    if i + 1 < args.len() {
        Some(args[i + 1])
    } else {
        None
    }
}

/// The launch context read from `args[i..]` on top of `ctx`.
///
/// `--archive` and `--output` take the next argument (none when it is
/// missing); `--action` takes the next argument when there is one; the
/// first other argument that does not start with `--` names the archive
/// unless one is named already; anything else is ignored.
pub open spec fn read_args(args: Seq<Seq<char>>, i: int, ctx: LaunchView) -> LaunchView
    decreases args.len() + 1 - i,
{
    if i < 0 || i >= args.len() {
        ctx
    } else if args[i] == "--archive"@ {
        read_args(args, i + 2, LaunchView { archive_path: arg_after(args, i), ..ctx })
    } else if args[i] == "--output"@ {
        read_args(args, i + 2, LaunchView { output_dir: arg_after(args, i), ..ctx })
    } else if args[i] == "--action"@ {
        match arg_after(args, i) {
            Some(a) => read_args(args, i + 2, LaunchView { requested_action: a, ..ctx }),
            None => ctx,
        }
    } else if !starts_with(args[i], "--"@) && ctx.archive_path is None {
        read_args(args, i + 1, LaunchView { archive_path: Some(args[i]), ..ctx })
    } else {
        read_args(args, i + 1, ctx)
    }
}

/// The launch context the arguments `args` (those after the program name)
/// ask for: the action is `open` unless one is named, and an archive named
/// without an output folder is extracted to the folder its action implies.
pub open spec fn spec_launch_context(args: Seq<Seq<char>>) -> LaunchView {
    let ctx = read_args(
        args,
        0,
        LaunchView { archive_path: None, output_dir: None, requested_action: "open"@ },
    );
    if ctx.output_dir is None && ctx.archive_path is Some {
        LaunchView {
            output_dir: spec_output_for_action(ctx.archive_path->0, ctx.requested_action),
            ..ctx
        }
    } else {
        ctx
    }
}

/// The strings of a sequence of strings.
pub open spec fn arg_views(args: Seq<String>) -> Seq<Seq<char>> {
    args.map_values(|s: String| s@)
}

/// The launch context that the arguments after the program name ask for.
pub fn get_launch_context(args: &[String]) -> (r: LaunchContext)
    ensures
        r@ == spec_launch_context(arg_views(args@)),
{
    let ghost views = arg_views(args@);
    let mut ctx = LaunchContext::default();
    ctx.requested_action = String::from_str("open");
    let ghost start = ctx@;
    let mut i: usize = 0;
    while i < args.len()
        invariant
            views == arg_views(args@),
            i <= args.len() + 1,
            read_args(views, 0, start) == read_args(views, i as int, ctx@),
            start == (LaunchView {
                archive_path: None,
                output_dir: None,
                requested_action: "open"@,
            }),
        decreases args.len() + 1 - i,
    {
        let arg = args[i].as_str();
        let ghost before = ctx@;
        assert(views[i as int] == arg@);
        let next: Option<String> = if i + 1 < args.len() {
            Some(args[i + 1].clone())
        } else {
            None
        };
        assert(opt_view(next) == arg_after(views, i as int));
        let step_over_next: usize = if i + 1 < args.len() {
            i + 2
        } else {
            args.len()
        };
        if str_eq(arg, "--archive") {
            ctx.archive_path = next;
            assert(read_args(views, i as int, before) == read_args(views, i + 2, ctx@));
            i = step_over_next;
        } else if str_eq(arg, "--output") {
            ctx.output_dir = next;
            assert(read_args(views, i as int, before) == read_args(views, i + 2, ctx@));
            i = step_over_next;
        } else if str_eq(arg, "--action") {
            match next {
                Some(a) => {
                    ctx.requested_action = a;
                    assert(read_args(views, i as int, before) == read_args(views, i + 2, ctx@));
                    i = step_over_next;
                },
                None => {
                    assert(read_args(views, i as int, ctx@) == ctx@);
                    i = args.len();
                    assert(read_args(views, i as int, ctx@) == ctx@);
                },
            }
        } else {
            let arg_chars = chars_of(arg);
            let dashes = chars_of("--");
            if !starts_with_chars(arg_chars.as_slice(), dashes.as_slice()) && ctx.archive_path.is_none() {
                ctx.archive_path = Some(args[i].clone());
            }
            assert(read_args(views, i as int, before) == read_args(views, i + 1, ctx@));
            i = i + 1;
        }
    }
    if ctx.output_dir.is_none() {
        match &ctx.archive_path {
            Some(a) => {
                ctx.output_dir = default_output_for_action(a.as_str(), ctx.requested_action.as_str());
            },
            None => {},
        }
    }
    ctx
}

} // verus!
