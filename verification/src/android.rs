//! Android SDK knowledge: where the tools live, and what `emulator`,
//! `adb` and `aapt2` print.
use vstd::prelude::*;
use crate::error::EmuError;
use crate::host::{home_dir, path_join, spec_path_join, spec_utf8_lossy, utf8_lossy};
use crate::search::{answered, callable, first_file, law_search_concat, lemma_searched_stops_by, searched};
use crate::text::{
    chars_of, has_prefix, is_prefix, is_ws, lemma_split_concat, lemma_split_no_sep, is_sep,
    lemma_lex_total, lemma_lex_trans, lex_le, lex_le_chars, lex_max,
    lemma_split_by_len, lemma_split_joined_lines, lemma_non_empty_all, line_feed_joined, non_empty,
    Sep, same_chars, skip_chars, split_by, split_chars, string_of, strs,
    trim, trim_chars, views, words, words_of,
};

verus! {

/// The value of a `name='...'` word: what stands between `name='` and a
/// closing quote that ends the word.
pub open spec fn name_value(word: Seq<char>) -> Option<Seq<char>> {
    if is_prefix("name='"@, word) {
        let value = word.skip("name='"@.len() as int);
        if value.len() > 0 && value.last() == '\'' {
            Some(value.drop_last())
        } else {
            None
        }
    } else {
        None
    }
}

/// The value of the first word of `ws` that is a `name='...'` word.
pub open spec fn first_name_value(ws: Seq<Seq<char>>) -> Option<Seq<char>>
    decreases ws.len(),
{
    if ws.len() == 0 {
        None
    } else {
        match name_value(ws[0]) {
            Some(v) => Some(v),
            None => first_name_value(ws.drop_first()),
        }
    }
}

/// The package name a line carries: for a line that starts with
/// `package:`, the first `name='...'` word after that prefix. (Empty
/// pieces of the whitespace split never match, so this is the first
/// matching whitespace-separated word.)
pub open spec fn line_package_name(line: Seq<char>) -> Option<Seq<char>> {
    if is_prefix("package:"@, line) {
        first_name_value(split_by(line.skip("package:"@.len() as int), Sep::Space))
    } else {
        None
    }
}

/// The package name of the first line that carries one.
pub open spec fn first_package_name(lines: Seq<Seq<char>>) -> Option<Seq<char>>
    decreases lines.len(),
{
    if lines.len() == 0 {
        None
    } else {
        match line_package_name(lines[0]) {
            Some(v) => Some(v),
            None => first_package_name(lines.drop_first()),
        }
    }
}

/// The application id that `aapt2 dump badging` output declares.
pub open spec fn badging_package_name(out: Seq<char>) -> Option<Seq<char>> {
    first_package_name(split_by(out, Sep::Line))
}

fn word_name_value(word: &Vec<char>) -> (r: Option<Vec<char>>)
    ensures
        r matches Some(v) ==> name_value(word@) == Some(v@),
        r is None ==> name_value(word@) is None,
{
    let key = chars_of("name='");
    if !has_prefix(&key, word) {
        return None;
    }
    let value = skip_chars(word, key.len());
    if value.len() > 0 && value[value.len() - 1] == '\'' {
        let mut v: Vec<char> = Vec::new();
        let mut i: usize = 0;
        while i + 1 < value.len()
            invariant
                value.len() > 0,
                i + 1 <= value.len(),
                v@ == value@.take(i as int),
            decreases value.len() - i,
        {
            v.push(value[i]);
            assert(value@.take(i + 1) == value@.take(i as int).push(value@[i as int]));
            i = i + 1;
        }
        assert(value@.drop_last() == value@.take(i as int));
        Some(v)
    } else {
        None
    }
}

/// Reads the application id out of `aapt2 dump badging` output: the value
/// of the first `name='...'` word on the first `package:` line that has one.
pub fn parse_package_name(aapt_output: &str) -> (r: Result<String, EmuError>)
    ensures
        match badging_package_name(aapt_output@) {
            Some(n) => r matches Ok(s) && s@ == n,
            None => r == Err::<String, EmuError>(EmuError::PackageNameNotFound),
        },
{
    let text = chars_of(aapt_output);
    let lines = split_chars(&text, Sep::Line);
    let key = chars_of("package:");
    let ghost ls = views(lines@);
    assert(ls.skip(0) == ls);
    for i in 0..lines.len()
        invariant
            ls == views(lines@),
            ls == split_by(aapt_output@, Sep::Line),
            key@ == "package:"@,
            first_package_name(ls) == first_package_name(ls.skip(i as int)),
    {
        let line = &lines[i];
        assert(ls.skip(i as int)[0] == line@);
        assert(ls.skip(i as int).drop_first() == ls.skip(i + 1));
        if has_prefix(&key, line) {
            let rest = skip_chars(line, key.len());
            let ws = split_chars(&rest, Sep::Space);
            let ghost wv = views(ws@);
            assert(wv.skip(0) == wv);
            for j in 0..ws.len()
                invariant
                    wv == views(ws@),
                    wv == split_by(rest@, Sep::Space),
                    line_package_name(line@) == first_name_value(wv),
                    0 <= i < ls.len(),
                    ls.skip(i as int)[0] == line@,
                    ls == split_by(aapt_output@, Sep::Line),
                    first_package_name(ls) == first_package_name(ls.skip(i as int)),
                    first_name_value(wv) == first_name_value(wv.skip(j as int)),
            {
                assert(wv.skip(j as int)[0] == ws@[j as int]@);
                assert(wv.skip(j as int).drop_first() == wv.skip(j + 1));
                match word_name_value(&ws[j]) {
                    Some(v) => {
                        assert(first_name_value(wv.skip(j as int)) == Some(v@));
                        assert(line_package_name(ls.skip(i as int)[0]) == Some(v@));
                        assert(first_package_name(ls.skip(i as int)) == Some(v@));
                        let s = string_of(&v, 0, v.len());
                        assert(v@.subrange(0, v.len() as int) == v@);
                        return Ok(s);
                    },
                    None => {},
                }
            }
            assert(wv.skip(ws.len() as int).len() == 0);
        }
    }
    assert(ls.skip(lines.len() as int).len() == 0);
    Err(EmuError::PackageNameNotFound)
}

} // verus!

verus! {

/// The operating system the tool runs on, as far as SDK layout goes.
#[derive(Debug, Clone, Copy, PartialEq, Eq, Structural)]
pub enum HostOs {
    Windows,
    MacOs,
    Linux,
    Other,
}

/// The host's name for its operating system (`std::env::consts::OS`) as a
/// `HostOs`.
pub open spec fn os_of_name(name: Seq<char>) -> HostOs {
    if name == "windows"@ {
        HostOs::Windows
    } else if name == "macos"@ {
        HostOs::MacOs
    } else if name == "linux"@ {
        HostOs::Linux
    } else {
        HostOs::Other
    }
}

/// Reads an operating system name such as `std::env::consts::OS` gives.
pub fn host_os_from_name(name: &str) -> (r: HostOs)
    ensures
        r == os_of_name(name@),
{
    let n = chars_of(name);
    let w = chars_of("windows");
    let m = chars_of("macos");
    let l = chars_of("linux");
    if same_chars(&n, &w) {
        HostOs::Windows
    } else if same_chars(&n, &m) {
        HostOs::MacOs
    } else if same_chars(&n, &l) {
        HostOs::Linux
    } else {
        HostOs::Other
    }
}

/// The suffix of executable file names on `os`.
pub open spec fn exe_suffix_of(os: HostOs) -> Seq<char> {
    if os == HostOs::Windows {
        ".exe"@
    } else {
        Seq::empty()
    }
}

/// The suffix of executable file names on `os`.
pub fn exe_suffix(os: HostOs) -> (r: &'static str)
    ensures
        r@ == exe_suffix_of(os),
{
    if os == HostOs::Windows {
        ".exe"
    } else {
        proof {
            reveal_strlit("");
        }
        ""
    }
}

/// What the tool reads from its environment: the operating system, the two
/// SDK variables and the directories of `PATH`, in order.
pub struct HostEnv {
    pub os: HostOs,
    pub android_home: Option<String>,
    pub android_sdk_root: Option<String>,
    pub path_dirs: Vec<String>,
}

/// The view of an optional string.
pub open spec fn opt_view(o: Option<String>) -> Option<Seq<char>> {
    match o {
        Some(s) => Some(s@),
        None => None,
    }
}

impl HostEnv {
    /// The SDK root the environment names: `ANDROID_HOME`, else
    /// `ANDROID_SDK_ROOT`.
    pub open spec fn sdk_root(&self) -> Option<Seq<char>> {
        if self.android_home is Some {
            opt_view(self.android_home)
        } else {
            opt_view(self.android_sdk_root)
        }
    }
}

/// The SDK root the environment names: `ANDROID_HOME`, else
/// `ANDROID_SDK_ROOT`.
pub fn sdk_root(env: &HostEnv) -> (r: Option<String>)
    ensures
        opt_view(r) == env.sdk_root(),
{
    match &env.android_home {
        Some(h) => Some(h.clone()),
        None => match &env.android_sdk_root {
            Some(s) => Some(s.clone()),
            None => None,
        },
    }
}

/// `root/sub_dir/binary`.
pub open spec fn tool_path(root: Seq<char>, sub_dir: Seq<char>, binary: Seq<char>) -> Seq<char> {
    spec_path_join(spec_path_join(root, sub_dir), binary)
}

/// The SDK roots the environment names, in the order they are searched:
/// `ANDROID_HOME`, then `ANDROID_SDK_ROOT`.
pub open spec fn env_sdk_roots(env: &HostEnv) -> Seq<Seq<char>> {
    let h = match env.android_home {
        Some(h) => seq![h@],
        None => Seq::<Seq<char>>::empty(),
    };
    let r = match env.android_sdk_root {
        Some(r) => seq![r@],
        None => Seq::<Seq<char>>::empty(),
    };
    h + r
}

/// `root/sub_dir/binary` for each of `roots`, in order.
pub open spec fn tool_paths(roots: Seq<Seq<char>>, sub_dir: Seq<char>, binary: Seq<char>) -> Seq<
    Seq<char>,
> {
    roots.map_values(|r: Seq<char>| tool_path(r, sub_dir, binary))
}

/// `dir/binary` for each of `dirs`, in order.
pub open spec fn joined_paths(dirs: Seq<Seq<char>>, binary: Seq<char>) -> Seq<Seq<char>> {
    dirs.map_values(|d: Seq<char>| spec_path_join(d, binary))
}

/// `root/sub_dir/binary` for each of `roots`, in order.
pub fn tool_path_list(roots: &Vec<String>, sub_dir: &str, binary: &str) -> (r: Vec<String>)
    ensures
        strs(r@) == tool_paths(strs(roots@), sub_dir@, binary@),
{
    let mut out: Vec<String> = Vec::new();
    push_tool_paths(&mut out, roots, sub_dir, binary);
    assert(strs(out@) =~= tool_paths(strs(roots@), sub_dir@, binary@));
    out
}

/// `dir/binary` for each of `dirs`, in order.
pub fn joined_path_list(dirs: &Vec<String>, binary: &str) -> (r: Vec<String>)
    ensures
        strs(r@) == joined_paths(strs(dirs@), binary@),
{
    let mut out: Vec<String> = Vec::new();
    push_joined_paths(&mut out, dirs, binary);
    assert(strs(out@) =~= joined_paths(strs(dirs@), binary@));
    out
}

/// The SDK roots the environment names, `ANDROID_HOME` first.
fn env_sdk_root_list(env: &HostEnv) -> (r: Vec<String>)
    ensures
        strs(r@) == env_sdk_roots(env),
{
    let mut roots: Vec<String> = Vec::new();
    if let Some(h) = &env.android_home {
        roots.push(h.clone());
    }
    if let Some(s) = &env.android_sdk_root {
        roots.push(s.clone());
    }
    assert(strs(roots@) =~= env_sdk_roots(env));
    roots
}

/// Looks for `sub_dir/binary_target` under `ANDROID_HOME`, then under
/// `ANDROID_SDK_ROOT`, asking `is_file` of each in turn: the first it
/// accepts, or `None` once it refused each.
pub fn locate_binary_in_sdk<F: Fn(&str) -> bool>(
    env: &HostEnv,
    sub_dir: &str,
    binary_target: &str,
    is_file: &F,
) -> (r: Option<String>)
    requires
        callable(*is_file),
    ensures
        searched(*is_file, tool_paths(env_sdk_roots(env), sub_dir@, binary_target@), opt_view(r)),
{
    let roots = env_sdk_root_list(env);
    let candidates = tool_path_list(&roots, sub_dir, binary_target);
    first_file(&candidates, is_file)
}

/// Looks for `binary_target` in each directory of `path_dirs`, in order,
/// asking `is_file` of each: the first it accepts, or `None` once it
/// refused each.
pub fn locate_binary_in_path<F: Fn(&str) -> bool>(
    path_dirs: &Vec<String>,
    binary_target: &str,
    is_file: &F,
) -> (r: Option<String>)
    requires
        callable(*is_file),
    ensures
        searched(*is_file, joined_paths(strs(path_dirs@), binary_target@), opt_view(r)),
{
    let candidates = joined_path_list(path_dirs, binary_target);
    first_file(&candidates, is_file)
}

/// Looks for `sub_dir/binary_target` under each of `paths`, in order,
/// asking `is_file` of each: the first it accepts, or `None` once it
/// refused each.
pub fn locate_binary_in_select_paths<F: Fn(&str) -> bool>(
    paths: &Vec<String>,
    sub_dir: &str,
    binary_target: &str,
    is_file: &F,
) -> (r: Option<String>)
    requires
        callable(*is_file),
    ensures
        searched(*is_file, tool_paths(strs(paths@), sub_dir@, binary_target@), opt_view(r)),
{
    let candidates = tool_path_list(paths, sub_dir, binary_target);
    first_file(&candidates, is_file)
}

/// `home/a/b/...` for the components of `parts`, joined in turn.
pub open spec fn join_all(base: Seq<char>, parts: Seq<Seq<char>>) -> Seq<char>
    decreases parts.len(),
{
    if parts.len() == 0 {
        base
    } else {
        spec_path_join(join_all(base, parts.drop_last()), parts.last())
    }
}

/// The places an SDK is usually installed on `os`, for the given home
/// directory: `~/AppData/Local/Android/Sdk` and three fixed locations on
/// Windows, `~/Library/Android/sdk` on macOS, `~/Android/Sdk` on Linux.
pub open spec fn fallback_sdk_paths(home: Option<Seq<char>>, os: HostOs) -> Seq<Seq<char>> {
    let in_home = |parts: Seq<Seq<char>>|
        match home {
            Some(h) => seq![join_all(h, parts)],
            None => Seq::<Seq<char>>::empty(),
        };
    match os {
        HostOs::Windows => in_home(seq!["AppData"@, "Local"@, "Android"@, "Sdk"@]) + seq![
            "C:\\Program Files (x86)\\Android\\android-sdk"@,
            "C:\\Program Files\\Android\\android-sdk"@,
            "C:\\Android\\android-sdk"@,
        ],
        HostOs::MacOs => in_home(seq!["Library"@, "Android"@, "sdk"@]),
        HostOs::Linux => in_home(seq!["Android"@, "Sdk"@]),
        HostOs::Other => Seq::empty(),
    }
}

fn join_parts(base: &str, parts: &Vec<&str>) -> (r: String)
    ensures
        r@ == join_all(base@, parts@.map_values(|p: &str| p@)),
{
    let mut acc = String::from_str(base);
    let ghost pv = parts@.map_values(|p: &str| p@);
    assert(pv.take(0) == Seq::<Seq<char>>::empty());
    for i in 0..parts.len()
        invariant
            pv == parts@.map_values(|p: &str| p@),
            acc@ == join_all(base@, pv.take(i as int)),
    {
        acc = path_join(acc.as_str(), parts[i]);
        assert(pv.take(i + 1).drop_last() == pv.take(i as int));
    }
    assert(pv.take(parts.len() as int) == pv);
    acc
}

/// The usual SDK locations on `os` for the given home directory.
pub fn fallback_sdk_candidates(home: Option<String>, os: HostOs) -> (r: Vec<String>)
    ensures
        strs(r@) == fallback_sdk_paths(opt_view(home), os),
{
    let mut r: Vec<String> = Vec::new();
    match os {
        HostOs::Windows => {
            if let Some(h) = &home {
                let parts: Vec<&str> = vec!["AppData", "Local", "Android", "Sdk"];
                assert(parts@.map_values(|p: &str| p@) =~= seq!["AppData"@, "Local"@, "Android"@, "Sdk"@]);
                r.push(join_parts(h.as_str(), &parts));
            }
            r.push(String::from_str("C:\\Program Files (x86)\\Android\\android-sdk"));
            r.push(String::from_str("C:\\Program Files\\Android\\android-sdk"));
            r.push(String::from_str("C:\\Android\\android-sdk"));
        },
        HostOs::MacOs => {
            if let Some(h) = &home {
                let parts: Vec<&str> = vec!["Library", "Android", "sdk"];
                assert(parts@.map_values(|p: &str| p@) =~= seq!["Library"@, "Android"@, "sdk"@]);
                r.push(join_parts(h.as_str(), &parts));
            }
        },
        HostOs::Linux => {
            if let Some(h) = &home {
                let parts: Vec<&str> = vec!["Android", "Sdk"];
                assert(parts@.map_values(|p: &str| p@) =~= seq!["Android"@, "Sdk"@]);
                r.push(join_parts(h.as_str(), &parts));
            }
        },
        HostOs::Other => {},
    }
    assert(strs(r@) =~= fallback_sdk_paths(opt_view(home), os));
    r
}

/// The usual SDK locations on `os` for the user's home directory, as
/// `dirs::home_dir` reports it.
pub fn fallback_sdk_locations(os: HostOs) -> (r: Vec<String>)
    ensures
        exists|h: Option<Seq<char>>| strs(r@) == fallback_sdk_paths(h, os),
{
    let home = home_dir();
    fallback_sdk_candidates(home, os)
}

} // verus!

verus! {

/// The paths searched for the tool `target` kept in `sub_dir` of an SDK,
/// in the order they are tried: under `ANDROID_HOME`, under
/// `ANDROID_SDK_ROOT`, under each of the usual SDK locations `fallback`,
/// then `target` in each `PATH` directory.
pub open spec fn sdk_tool_search(
    env: &HostEnv,
    fallback: Seq<Seq<char>>,
    sub_dir: Seq<char>,
    target: Seq<char>,
) -> Seq<Seq<char>> {
    tool_paths(env_sdk_roots(env), sub_dir, target) + tool_paths(fallback, sub_dir, target)
        + joined_paths(strs(env.path_dirs@), target)
}

/// `r` is what the search for the tool `target` kept in `sub_dir` reports,
/// `is_file` answering for each path, with the usual SDK locations of some
/// home directory.
pub open spec fn sdk_tool_found<F: Fn(&str) -> bool>(
    is_file: F,
    env: &HostEnv,
    sub_dir: Seq<char>,
    target: Seq<char>,
    r: Option<Seq<char>>,
) -> bool {
    exists|h: Option<Seq<char>>|
        #[trigger] searched(is_file, sdk_tool_search(env, fallback_sdk_paths(h, env.os), sub_dir, target), r)
}

/// Looking under the select paths `first` then `second` reports a place
/// under `first` as looking under `first` alone would; only where each of
/// those was refused does it report what looking under `second` alone
/// would.
pub proof fn law_select_paths_concat<F: Fn(&str) -> bool>(
    is_file: F,
    first: Seq<Seq<char>>,
    second: Seq<Seq<char>>,
    sub_dir: Seq<char>,
    target: Seq<char>,
    r: Option<Seq<char>>,
)
    requires
        searched(is_file, tool_paths(first + second, sub_dir, target), r),
    ensures
        (r is Some && searched(is_file, tool_paths(first, sub_dir, target), r)) || (searched(
            is_file,
            tool_paths(first, sub_dir, target),
            None,
        ) && searched(is_file, tool_paths(second, sub_dir, target), r)),
{
    assert(tool_paths(first + second, sub_dir, target) =~= tool_paths(first, sub_dir, target)
        + tool_paths(second, sub_dir, target));
    law_search_concat(is_file, tool_paths(first, sub_dir, target), tool_paths(second, sub_dir, target), r);
}

/// Appends `root/sub_dir/target` for each of `roots`, in order.
fn push_tool_paths(out: &mut Vec<String>, roots: &Vec<String>, sub_dir: &str, target: &str)
    ensures
        strs(final(out)@) == strs(old(out)@) + tool_paths(strs(roots@), sub_dir@, target@),
{
    let ghost start = strs(out@);
    let ghost mapped = tool_paths(strs(roots@), sub_dir@, target@);
    for i in 0..roots.len()
        invariant
            mapped == tool_paths(strs(roots@), sub_dir@, target@),
            strs(out@) == start + mapped.take(i as int),
    {
        let dir = path_join(roots[i].as_str(), sub_dir);
        let candidate = path_join(dir.as_str(), target);
        let ghost prev = out@;
        out.push(candidate);
        assert(strs(out@) =~= strs(prev).push(candidate@));
        assert(mapped.take(i + 1) =~= mapped.take(i as int).push(mapped[i as int]));
        assert(strs(out@) =~= start + mapped.take(i + 1));
    }
    assert(mapped.take(roots.len() as int) =~= mapped);
}

/// Appends `dir/target` for each of `dirs`, in order.
fn push_joined_paths(out: &mut Vec<String>, dirs: &Vec<String>, target: &str)
    ensures
        strs(final(out)@) == strs(old(out)@) + joined_paths(strs(dirs@), target@),
{
    let ghost start = strs(out@);
    let ghost mapped = joined_paths(strs(dirs@), target@);
    for i in 0..dirs.len()
        invariant
            mapped == joined_paths(strs(dirs@), target@),
            strs(out@) == start + mapped.take(i as int),
    {
        let candidate = path_join(dirs[i].as_str(), target);
        let ghost prev = out@;
        out.push(candidate);
        assert(strs(out@) =~= strs(prev).push(candidate@));
        assert(mapped.take(i + 1) =~= mapped.take(i as int).push(mapped[i as int]));
        assert(strs(out@) =~= start + mapped.take(i + 1));
    }
    assert(mapped.take(dirs.len() as int) =~= mapped);
}

/// The paths searched for the tool `target` kept in `sub_dir`, in the
/// order they are tried, for the usual SDK locations `fallback`.
pub fn sdk_tool_search_paths(env: &HostEnv, fallback: &Vec<String>, sub_dir: &str, target: &str) -> (r:
    Vec<String>)
    ensures
        strs(r@) == sdk_tool_search(env, strs(fallback@), sub_dir@, target@),
{
    let roots = env_sdk_root_list(env);
    let mut out: Vec<String> = Vec::new();
    push_tool_paths(&mut out, &roots, sub_dir, target);
    push_tool_paths(&mut out, fallback, sub_dir, target);
    push_joined_paths(&mut out, &env.path_dirs, target);
    assert(strs(out@) =~= sdk_tool_search(env, strs(fallback@), sub_dir@, target@));
    out
}

/// The file name of the tool `name` on the host.
pub fn tool_file_name(env: &HostEnv, name: &str) -> (r: String)
    ensures
        r@ == name@ + exe_suffix_of(env.os),
{
    let mut t = String::from_str(name);
    t.append(exe_suffix(env.os));
    t
}

/// Looks for a tool along its search (see `sdk_tool_search`), stopping at
/// the first path that `is_file` accepts.
fn locate_sdk_tool<F: Fn(&str) -> bool>(env: &HostEnv, sub_dir: &str, target: &str, is_file: &F) -> (r:
    Option<String>)
    requires
        callable(*is_file),
    ensures
        sdk_tool_found(*is_file, env, sub_dir@, target@, opt_view(r)),
{
    let fallback = fallback_sdk_locations(env.os);
    let ghost h = choose|h: Option<Seq<char>>| strs(fallback@) == fallback_sdk_paths(h, env.os);
    let paths = sdk_tool_search_paths(env, &fallback, sub_dir, target);
    let r = first_file(&paths, is_file);
    assert(searched(
        *is_file,
        sdk_tool_search(env, fallback_sdk_paths(h, env.os), sub_dir@, target@),
        opt_view(r),
    ));
    r
}

/// A tool that the file test cannot have refused under `ANDROID_HOME` is
/// the one reported, whatever other place on the search holds a copy.
pub proof fn law_android_home_wins<F: Fn(&str) -> bool>(
    is_file: F,
    env: &HostEnv,
    fallback: Seq<Seq<char>>,
    sub_dir: Seq<char>,
    target: Seq<char>,
    r: Option<Seq<char>>,
)
    requires
        searched(is_file, sdk_tool_search(env, fallback, sub_dir, target), r),
        env.android_home is Some,
        !answered(is_file, tool_path(env.android_home->0@, sub_dir, target), false),
    ensures
        r == Some(tool_path(env.android_home->0@, sub_dir, target)),
{
    let search = sdk_tool_search(env, fallback, sub_dir, target);
    assert(env_sdk_roots(env)[0] == env.android_home->0@);
    assert(search[0] == tool_path(env.android_home->0@, sub_dir, target));
    lemma_searched_stops_by(is_file, search, r, 0);
}

/// On Windows a tool is looked for as its name followed by `.exe`: where
/// `ANDROID_HOME` is set and the file test cannot have refused
/// `ANDROID_HOME/sub_dir/name.exe`, that is the path reported.
pub proof fn law_windows_tools_end_in_exe<F: Fn(&str) -> bool>(
    is_file: F,
    env: &HostEnv,
    sub_dir: Seq<char>,
    name: Seq<char>,
    r: Option<Seq<char>>,
)
    requires
        env.os == HostOs::Windows,
        env.android_home is Some,
        sdk_tool_found(is_file, env, sub_dir, name + exe_suffix_of(env.os), r),
        !answered(is_file, tool_path(env.android_home->0@, sub_dir, name + ".exe"@), false),
    ensures
        r == Some(tool_path(env.android_home->0@, sub_dir, name + ".exe"@)),
{
    let target = name + exe_suffix_of(env.os);
    assert(target == name + ".exe"@);
    let h = choose|h: Option<Seq<char>>|
        #[trigger] searched(is_file, sdk_tool_search(env, fallback_sdk_paths(h, env.os), sub_dir, target), r);
    law_android_home_wins(is_file, env, fallback_sdk_paths(h, env.os), sub_dir, target, r);
}

/// Off Windows a tool is looked for under its bare name: where
/// `ANDROID_HOME` is set and the file test cannot have refused
/// `ANDROID_HOME/sub_dir/name`, that is the path reported.
pub proof fn law_other_tools_bare_name<F: Fn(&str) -> bool>(
    is_file: F,
    env: &HostEnv,
    sub_dir: Seq<char>,
    name: Seq<char>,
    r: Option<Seq<char>>,
)
    requires
        env.os != HostOs::Windows,
        env.android_home is Some,
        sdk_tool_found(is_file, env, sub_dir, name + exe_suffix_of(env.os), r),
        !answered(is_file, tool_path(env.android_home->0@, sub_dir, name), false),
    ensures
        r == Some(tool_path(env.android_home->0@, sub_dir, name)),
{
    let target = name + exe_suffix_of(env.os);
    assert(target =~= name);
    let h = choose|h: Option<Seq<char>>|
        #[trigger] searched(is_file, sdk_tool_search(env, fallback_sdk_paths(h, env.os), sub_dir, target), r);
    law_android_home_wins(is_file, env, fallback_sdk_paths(h, env.os), sub_dir, target, r);
}

/// A `PATH` directory is reported only where the file test refused the
/// tool under every SDK root and every usual SDK location: where it cannot
/// have refused one of those, that place or an earlier one is reported.
pub proof fn law_path_searched_last<F: Fn(&str) -> bool>(
    is_file: F,
    env: &HostEnv,
    fallback: Seq<Seq<char>>,
    sub_dir: Seq<char>,
    target: Seq<char>,
    r: Option<Seq<char>>,
    k: int,
)
    requires
        searched(is_file, sdk_tool_search(env, fallback, sub_dir, target), r),
        0 <= k < env_sdk_roots(env).len() + fallback.len(),
        !answered(is_file, sdk_tool_search(env, fallback, sub_dir, target)[k], false),
    ensures
        r matches Some(p) && exists|i: int|
            0 <= i <= k && #[trigger] sdk_tool_search(env, fallback, sub_dir, target)[i] == p,
{
    lemma_searched_stops_by(is_file, sdk_tool_search(env, fallback, sub_dir, target), r, k);
}

/// Finds the `emulator` binary along its search (see `sdk_tool_search`):
/// in `emulator/` of `ANDROID_HOME`, of `ANDROID_SDK_ROOT`, of each usual SDK
/// location, then in each `PATH` directory; the first path `is_file`
/// accepts, or `EmulatorNotFound` once it refused each.
pub fn locate_emulator_binary<F: Fn(&str) -> bool>(env: &HostEnv, is_file: &F) -> (r: Result<
    String,
    EmuError,
>)
    requires
        callable(*is_file),
    ensures
        r matches Ok(p) ==> sdk_tool_found(
            *is_file,
            env,
            "emulator"@,
            "emulator"@ + exe_suffix_of(env.os),
            Some(p@),
        ),
        r matches Err(e) ==> e == EmuError::EmulatorNotFound && sdk_tool_found(
            *is_file,
            env,
            "emulator"@,
            "emulator"@ + exe_suffix_of(env.os),
            None,
        ),
{
    let target = tool_file_name(env, "emulator");
    match locate_sdk_tool(env, "emulator", target.as_str(), is_file) {
        Some(p) => Ok(p),
        None => Err(EmuError::EmulatorNotFound),
    }
}

/// Finds the `adb` binary along its search (see `sdk_tool_search`): in
/// `platform-tools/` of `ANDROID_HOME`, of `ANDROID_SDK_ROOT`, of each usual
/// SDK location, then in each `PATH` directory; the first path `is_file`
/// accepts, or `AdbNotFound` once it refused each.
pub fn locate_adb_binary<F: Fn(&str) -> bool>(env: &HostEnv, is_file: &F) -> (r: Result<
    String,
    EmuError,
>)
    requires
        callable(*is_file),
    ensures
        r matches Ok(p) ==> sdk_tool_found(
            *is_file,
            env,
            "platform-tools"@,
            "adb"@ + exe_suffix_of(env.os),
            Some(p@),
        ),
        r matches Err(e) ==> e == EmuError::AdbNotFound && sdk_tool_found(
            *is_file,
            env,
            "platform-tools"@,
            "adb"@ + exe_suffix_of(env.os),
            None,
        ),
{
    let target = tool_file_name(env, "adb");
    match locate_sdk_tool(env, "platform-tools", target.as_str(), is_file) {
        Some(p) => Ok(p),
        None => Err(EmuError::AdbNotFound),
    }
}

/// The SDK roots whose build tools are searched for `aapt2`: the root the
/// environment names, else the usual SDK locations.
pub fn aapt2_sdk_roots(env: &HostEnv) -> (r: Vec<String>)
    ensures
        env.sdk_root() matches Some(root) ==> strs(r@) == seq![root],
        env.sdk_root() is None ==> exists|h: Option<Seq<char>>|
            strs(r@) == fallback_sdk_paths(h, env.os),
{
    match sdk_root(env) {
        Some(root) => {
            let v = vec![root];
            assert(strs(v@) =~= seq![v@[0]@]);
            v
        },
        None => fallback_sdk_locations(env.os),
    }
}

/// The `build-tools` directory of an SDK root.
pub fn build_tools_dir(root: &str) -> (r: String)
    ensures
        r@ == spec_path_join(root@, "build-tools"@),
{
    path_join(root, "build-tools")
}

/// The greatest of `dirs` in lexicographic order (the newest build-tools
/// version directory), or `None` where `dirs` is empty.
pub fn latest_version_dir(dirs: &Vec<String>) -> (r: Option<String>)
    ensures
        r is None <==> dirs.len() == 0,
        r matches Some(m) ==> m@ == lex_max(strs(dirs@)),
        r matches Some(m) ==> (exists|i: int| 0 <= i < dirs.len() && #[trigger] dirs@[i]@ == m@)
            && forall|i: int| 0 <= i < dirs.len() ==> lex_le(#[trigger] dirs@[i]@, m@),
{
    if dirs.len() == 0 {
        return None;
    }
    let ghost ds = strs(dirs@);
    let mut best: usize = 0;
    let mut best_chars = chars_of(dirs[0].as_str());
    proof {
        lemma_lex_total(dirs@[0]@, dirs@[0]@);
        assert(ds.take(1) =~= seq![ds[0]]);
    }
    for i in 1..dirs.len()
        invariant
            ds == strs(dirs@),
            best < dirs.len(),
            best_chars@ == dirs@[best as int]@,
            dirs@[best as int]@ == lex_max(ds.take(i as int)),
            forall|k: int| 0 <= k < i ==> lex_le(#[trigger] dirs@[k]@, dirs@[best as int]@),
    {
        let c = chars_of(dirs[i].as_str());
        proof {
            lemma_lex_total(dirs@[i as int]@, dirs@[best as int]@);
            assert(ds.take(i + 1).drop_last() =~= ds.take(i as int));
            assert(ds.take(i + 1).last() == dirs@[i as int]@);
        }
        if lex_le_chars(&best_chars, &c) {
            proof {
                assert forall|k: int| 0 <= k < i + 1 implies lex_le(
                    #[trigger] dirs@[k]@,
                    dirs@[i as int]@,
                ) by {
                    if k < i {
                        lemma_lex_trans(dirs@[k]@, dirs@[best as int]@, dirs@[i as int]@);
                    } else {
                        lemma_lex_total(dirs@[k]@, dirs@[k]@);
                    }
                }
            }
            best = i;
            best_chars = c;
        }
    }
    assert(ds.take(dirs.len() as int) =~= ds);
    Some(dirs[best].clone())
}

/// The views of lists of strings.
pub open spec fn strss(v: Seq<Vec<String>>) -> Seq<Seq<Seq<char>>> {
    v.map_values(|d: Vec<String>| strs(d@))
}

/// `target` in the newest version directory of each SDK root that has one,
/// in the order of the roots.
pub open spec fn newest_tools(version_dirs: Seq<Seq<Seq<char>>>, target: Seq<char>) -> Seq<
    Seq<char>,
>
    decreases version_dirs.len(),
{
    if version_dirs.len() == 0 {
        Seq::empty()
    } else {
        let init = newest_tools(version_dirs.drop_last(), target);
        if version_dirs.last().len() == 0 {
            init
        } else {
            init.push(spec_path_join(lex_max(version_dirs.last()), target))
        }
    }
}

/// Where `aapt2` (file name `target`) is looked for, in order: in the
/// newest version directory of each SDK root that has one, then in each
/// `PATH` directory.
pub open spec fn aapt2_search(
    version_dirs: Seq<Seq<Seq<char>>>,
    path_dirs: Seq<Seq<char>>,
    target: Seq<char>,
) -> Seq<Seq<char>> {
    newest_tools(version_dirs, target) + joined_paths(path_dirs, target)
}

/// Finds the `aapt2` binary. `version_dirs[i]` holds the version
/// directories in `build-tools` of the `i`th root of `aapt2_sdk_roots`
/// (none where it cannot be read). For each root in turn, `aapt2` in its
/// lexicographically newest version directory is tried; then `aapt2` in
/// each `PATH` directory. The result is the first path `is_file` accepts,
/// or `Aapt2NotFound` once it refused each.
pub fn locate_aapt2_binary<F: Fn(&str) -> bool>(
    env: &HostEnv,
    version_dirs: &Vec<Vec<String>>,
    is_file: &F,
) -> (r: Result<String, EmuError>)
    requires
        callable(*is_file),
    ensures
        ({
            let search = aapt2_search(
                strss(version_dirs@),
                strs(env.path_dirs@),
                "aapt2"@ + exe_suffix_of(env.os),
            );
            &&& r matches Ok(p) ==> searched(*is_file, search, Some(p@))
            &&& r matches Err(e) ==> e == EmuError::Aapt2NotFound && searched(*is_file, search, None)
        }),
{
    let target = tool_file_name(env, "aapt2");
    let ghost vd = strss(version_dirs@);
    let mut candidates: Vec<String> = Vec::new();
    for i in 0..version_dirs.len()
        invariant
            vd == strss(version_dirs@),
            strs(candidates@) == newest_tools(vd.take(i as int), target@),
    {
        proof {
            assert(vd.take(i + 1).drop_last() =~= vd.take(i as int));
            assert(vd.take(i + 1).last() == strs(version_dirs@[i as int]@));
        }
        if let Some(latest) = latest_version_dir(&version_dirs[i]) {
            let candidate = path_join(latest.as_str(), target.as_str());
            let ghost prev = candidates@;
            candidates.push(candidate);
            assert(strs(candidates@) =~= strs(prev).push(candidate@));
        }
    }
    assert(vd.take(version_dirs.len() as int) =~= vd);
    push_joined_paths(&mut candidates, &env.path_dirs, target.as_str());
    match first_file(&candidates, is_file) {
        Some(p) => Ok(p),
        None => Err(EmuError::Aapt2NotFound),
    }
}

} // verus!

verus! {

/// The lines of `out` with surrounding whitespace trimmed.
pub open spec fn trimmed_lines(out: Seq<char>) -> Seq<Seq<char>> {
    split_by(out, Sep::Line).map_values(|l: Seq<char>| trim(l))
}

/// The AVD names that `emulator -list-avds` printed: its non-blank lines,
/// trimmed.
pub open spec fn avd_names(out: Seq<char>) -> Seq<Seq<char>> {
    non_empty(trimmed_lines(out))
}

/// The non-blank lines of `text`, trimmed, in order.
pub fn parse_avd_list(text: &str) -> (r: Vec<String>)
    ensures
        strs(r@) == avd_names(text@),
{
    let cs = chars_of(text);
    let lines = split_chars(&cs, Sep::Line);
    let ghost tl = trimmed_lines(text@);
    let mut r: Vec<String> = Vec::new();
    assert(tl.take(0) == Seq::<Seq<char>>::empty());
    for i in 0..lines.len()
        invariant
            views(lines@) == split_by(text@, Sep::Line),
            tl == trimmed_lines(text@),
            tl.len() == lines.len(),
            strs(r@) == non_empty(tl.take(i as int)),
    {
        let t = trim_chars(&lines[i]);
        assert(tl[i as int] == t@);
        assert(tl.take(i + 1).drop_last() == tl.take(i as int));
        assert(tl.take(i + 1).last() == t@);
        if t.len() > 0 {
            let s = string_of(&t, 0, t.len());
            assert(t@.subrange(0, t.len() as int) == t@);
            let ghost before = r@;
            r.push(s);
            assert(strs(r@) == strs(before).push(t@));
        }
    }
    assert(tl.take(lines.len() as int) == tl);
    r
}

/// Reads what `emulator -list-avds` reported: `ListAvdsFailed` where it
/// exited with a failure status, `NoAvds` where it listed no name, else the
/// names it printed (its non-blank lines, trimmed).
pub fn list_avds(succeeded: bool, stdout: &[u8]) -> (r: Result<Vec<String>, EmuError>)
    ensures
        !succeeded ==> r == Err::<Vec<String>, EmuError>(EmuError::ListAvdsFailed),
        succeeded ==> {
            let names = avd_names(spec_utf8_lossy(stdout@));
            if names.len() == 0 {
                r == Err::<Vec<String>, EmuError>(EmuError::NoAvds)
            } else {
                r matches Ok(v) && strs(v@) == names
            }
        },
{
    if !succeeded {
        return Err(EmuError::ListAvdsFailed);
    }
    let text = utf8_lossy(stdout);
    let avds = parse_avd_list(text.as_str());
    if avds.len() == 0 {
        Err(EmuError::NoAvds)
    } else {
        Ok(avds)
    }
}

/// The serial a line of `adb devices` reports for a device that is online:
/// the first word, where the second word is `device`.
pub open spec fn device_serial(line: Seq<char>) -> Option<Seq<char>> {
    let w = words(line);
    if w.len() >= 2 && w[1] == "device"@ {
        Some(w[0])
    } else {
        None
    }
}

/// The serials that `lines` report for online devices, in order.
pub open spec fn serials(lines: Seq<Seq<char>>) -> Seq<Seq<char>>
    decreases lines.len(),
{
    if lines.len() == 0 {
        Seq::empty()
    } else {
        match device_serial(lines.last()) {
            Some(s) => serials(lines.drop_last()).push(s),
            None => serials(lines.drop_last()),
        }
    }
}

/// The online devices that `adb devices` output lists: the serials of the
/// lines after the header line whose state is `device`.
pub open spec fn online_serials(out: Seq<char>) -> Seq<Seq<char>> {
    serials(split_by(out, Sep::Line).skip(1))
}

/// The serials of the online devices listed in `adb devices` output.
pub fn parse_online_devices(text: &str) -> (r: Vec<String>)
    ensures
        strs(r@) == online_serials(text@),
{
    let cs = chars_of(text);
    let lines = split_chars(&cs, Sep::Line);
    let ghost lv = views(lines@);
    proof {
        lemma_split_by_len(text@, Sep::Line);
    }
    let device = chars_of("device");
    let mut r: Vec<String> = Vec::new();
    assert(lv.subrange(1, 1) == Seq::<Seq<char>>::empty());
    for i in 1..lines.len()
        invariant
            lv == views(lines@),
            lv == split_by(text@, Sep::Line),
            lv.len() >= 1,
            device@ == "device"@,
            strs(r@) == serials(lv.subrange(1, i as int)),
    {
        let w = words_of(&lines[i]);
        assert(lv.subrange(1, i + 1).drop_last() == lv.subrange(1, i as int));
        assert(lv.subrange(1, i + 1).last() == lines@[i as int]@);
        assert(views(w@)[0] == w@[0]@ || w.len() == 0);
        if w.len() >= 2 && same_chars(&w[1], &device) {
            assert(views(w@)[1] == w@[1]@);
            let s = string_of(&w[0], 0, w[0].len());
            assert(w@[0]@.subrange(0, w@[0]@.len() as int) == w@[0]@);
            let ghost before = r@;
            r.push(s);
            assert(strs(r@) == strs(before).push(views(w@)[0]));
        } else {
            proof {
                if w.len() >= 2 {
                    assert(views(w@)[1] == w@[1]@);
                }
            }
        }
    }
    assert(lv.subrange(1, lines.len() as int) == lv.skip(1));
    r
}

/// Reads `adb devices` output: the serials of the devices that are online.
pub fn list_online_devices(stdout: &[u8]) -> (r: Vec<String>)
    ensures
        strs(r@) == online_serials(spec_utf8_lossy(stdout@)),
{
    let text = utf8_lossy(stdout);
    parse_online_devices(text.as_str())
}

/// Reads `aapt2 dump badging` output: `BadgingFailed` where it exited with
/// a failure status, else the application id it declares, or
/// `PackageNameNotFound`.
pub fn package_name_from_apk(succeeded: bool, stdout: &[u8]) -> (r: Result<String, EmuError>)
    ensures
        !succeeded ==> r == Err::<String, EmuError>(EmuError::BadgingFailed),
        succeeded ==> match badging_package_name(spec_utf8_lossy(stdout@)) {
            Some(n) => r matches Ok(s) && s@ == n,
            None => r == Err::<String, EmuError>(EmuError::PackageNameNotFound),
        },
{
    if !succeeded {
        return Err(EmuError::BadgingFailed);
    }
    let text = utf8_lossy(stdout);
    parse_package_name(text.as_str())
}

/// Whether `getprop sys.boot_completed` output reads `1` once trimmed.
pub fn boot_completed(stdout: &[u8]) -> (r: bool)
    ensures
        r == (trim(spec_utf8_lossy(stdout@)) == "1"@),
{
    let text = utf8_lossy(stdout);
    let cs = chars_of(text.as_str());
    let t = trim_chars(&cs);
    let one = chars_of("1");
    same_chars(&t, &one)
}

/// The process id `pidof` printed: its trimmed output, where not empty.
pub fn pid_from_pidof(stdout: &[u8]) -> (r: Option<String>)
    ensures
        trim(spec_utf8_lossy(stdout@)).len() == 0 ==> r is None,
        trim(spec_utf8_lossy(stdout@)).len() > 0 ==> (r matches Some(p) && p@ == trim(
            spec_utf8_lossy(stdout@),
        )),
{
    let text = utf8_lossy(stdout);
    let cs = chars_of(text.as_str());
    let t = trim_chars(&cs);
    if t.len() == 0 {
        None
    } else {
        assert(t@.subrange(0, t.len() as int) == t@);
        Some(string_of(&t, 0, t.len()))
    }
}

} // verus!

verus! {

/// Where a wait for a booted device stands. The timeout (seconds) is kept
/// for the error that reports it.
pub enum BootWait {
    /// No online device seen yet.
    SeekingDevice { timeout_secs: u64 },
    /// `serial` is online; its `sys.boot_completed` has not read `1` yet.
    AwaitingBoot { timeout_secs: u64, serial: String },
    /// The wait is over; the last action carries its outcome.
    Finished,
}

/// What the host reports back after performing a `BootAction`.
pub enum BootEvent {
    /// The clock was read: whether the wait's deadline has passed.
    Clock { deadline_passed: bool },
    /// The serials of the online devices, in `adb devices` order.
    Devices { serials: Vec<String> },
    /// What `adb -s <serial> shell getprop sys.boot_completed` printed.
    BootProp { stdout: Vec<u8> },
}

/// What the host is asked to do next while waiting for a booted device.
pub enum BootAction {
    /// Read the clock and report `Clock`.
    ReadClock,
    /// Sleep this many milliseconds, then read the clock and report `Clock`.
    PauseThenReadClock { millis: u64 },
    /// List the online devices and report `Devices`.
    ListDevices,
    /// Read `sys.boot_completed` of `serial` and report `BootProp`.
    QueryBootCompleted { serial: String },
    /// The device `serial` has booted.
    Ready { serial: String },
    /// The wait failed.
    Fail { error: EmuError },
}

/// The pause between two polls of the device, in milliseconds.
pub open spec fn boot_poll_millis() -> u64 {
    500
}

/// One step of the wait for a booted device. First phase: until the
/// deadline passes, list the devices every 500 ms, and take the first
/// online one. Second phase: until the deadline passes, read its
/// `sys.boot_completed` every 500 ms; it has booted when that reads `1`.
/// A deadline that passes ends the wait with `DeviceTimeout` in the first
/// phase and `BootTimeout` in the second. An event that the state does not
/// wait for changes nothing and asks for the clock.
pub open spec fn boot_next(state: BootWait, event: BootEvent) -> (BootWait, BootAction) {
    match state {
        BootWait::SeekingDevice { timeout_secs } => match event {
            BootEvent::Clock { deadline_passed } => if deadline_passed {
                (
                    BootWait::Finished,
                    BootAction::Fail { error: EmuError::DeviceTimeout { secs: timeout_secs } },
                )
            } else {
                (state, BootAction::ListDevices)
            },
            BootEvent::Devices { serials } => if serials.len() > 0 {
                (
                    BootWait::AwaitingBoot { timeout_secs, serial: serials@[0] },
                    BootAction::ReadClock,
                )
            } else {
                (state, BootAction::PauseThenReadClock { millis: boot_poll_millis() })
            },
            _ => (state, BootAction::ReadClock),
        },
        BootWait::AwaitingBoot { timeout_secs, serial } => match event {
            BootEvent::Clock { deadline_passed } => if deadline_passed {
                (
                    BootWait::Finished,
                    BootAction::Fail { error: EmuError::BootTimeout { secs: timeout_secs } },
                )
            } else {
                (state, BootAction::QueryBootCompleted { serial })
            },
            BootEvent::BootProp { stdout } => if trim(spec_utf8_lossy(stdout@)) == "1"@ {
                (BootWait::Finished, BootAction::Ready { serial })
            } else {
                (state, BootAction::PauseThenReadClock { millis: boot_poll_millis() })
            },
            _ => (state, BootAction::ReadClock),
        },
        BootWait::Finished => (state, BootAction::ReadClock),
    }
}

impl BootWait {
    /// A wait that has not seen a device yet; its first action is
    /// `ReadClock`.
    pub fn start(timeout_secs: u64) -> (r: BootWait)
        ensures
            r == (BootWait::SeekingDevice { timeout_secs }),
    {
        BootWait::SeekingDevice { timeout_secs }
    }
}

/// The decisions of waiting for a booted device: from the state of the wait
/// and what the host reported, the next state and the next action (see
/// `boot_next`).
pub fn wait_for_boot(state: BootWait, event: BootEvent) -> (r: (BootWait, BootAction))
    ensures
        r == boot_next(state, event),
{
    match state {
        BootWait::SeekingDevice { timeout_secs } => match event {
            BootEvent::Clock { deadline_passed } => if deadline_passed {
                (
                    BootWait::Finished,
                    BootAction::Fail { error: EmuError::DeviceTimeout { secs: timeout_secs } },
                )
            } else {
                (BootWait::SeekingDevice { timeout_secs }, BootAction::ListDevices)
            },
            BootEvent::Devices { serials } => if serials.len() > 0 {
                let serial = serials[0].clone();
                (BootWait::AwaitingBoot { timeout_secs, serial }, BootAction::ReadClock)
            } else {
                (
                    BootWait::SeekingDevice { timeout_secs },
                    BootAction::PauseThenReadClock { millis: 500 },
                )
            },
            BootEvent::BootProp { .. } => (
                BootWait::SeekingDevice { timeout_secs },
                BootAction::ReadClock,
            ),
        },
        BootWait::AwaitingBoot { timeout_secs, serial } => match event {
            BootEvent::Clock { deadline_passed } => if deadline_passed {
                (
                    BootWait::Finished,
                    BootAction::Fail { error: EmuError::BootTimeout { secs: timeout_secs } },
                )
            } else {
                let s = serial.clone();
                (
                    BootWait::AwaitingBoot { timeout_secs, serial },
                    BootAction::QueryBootCompleted { serial: s },
                )
            },
            BootEvent::BootProp { stdout } => if boot_completed(stdout.as_slice()) {
                (BootWait::Finished, BootAction::Ready { serial })
            } else {
                (
                    BootWait::AwaitingBoot { timeout_secs, serial },
                    BootAction::PauseThenReadClock { millis: 500 },
                )
            },
            BootEvent::Devices { .. } => (
                BootWait::AwaitingBoot { timeout_secs, serial },
                BootAction::ReadClock,
            ),
        },
        BootWait::Finished => (BootWait::Finished, BootAction::ReadClock),
    }
}

} // verus!

verus! {

/// `adb -s <serial> shell getprop sys.boot_completed`: reads whether the
/// device has finished booting.
pub fn boot_completed_args(serial: &str) -> (r: Vec<String>)
    ensures
        strs(r@) == seq!["-s"@, serial@, "shell"@, "getprop"@, "sys.boot_completed"@],
{
    let parts: Vec<&str> = vec!["-s", serial, "shell", "getprop", "sys.boot_completed"];
    let r = crate::run::owned_args(&parts);
    assert(crate::run::lits(parts@) =~= seq![
        "-s"@,
        serial@,
        "shell"@,
        "getprop"@,
        "sys.boot_completed"@,
    ]);
    r
}

/// `aapt2 dump badging <apk>`: prints the APK's manifest summary, whose
/// `package:` line carries the application id.
pub fn badging_args(apk: &str) -> (r: Vec<String>)
    ensures
        strs(r@) == seq!["dump"@, "badging"@, apk@],
{
    let parts: Vec<&str> = vec!["dump", "badging", apk];
    let r = crate::run::owned_args(&parts);
    assert(crate::run::lits(parts@) =~= seq!["dump"@, "badging"@, apk@]);
    r
}

} // verus!

verus! {

/// The state a wait reaches from `state` when the host reports `events` in
/// turn.
pub open spec fn boot_final(state: BootWait, events: Seq<BootEvent>) -> BootWait
    decreases events.len(),
{
    if events.len() == 0 {
        state
    } else {
        boot_next(boot_final(state, events.drop_last()), events.last()).0
    }
}

/// The action the wait asks for after each of `events`.
pub open spec fn boot_actions(state: BootWait, events: Seq<BootEvent>) -> Seq<BootAction>
    decreases events.len(),
{
    if events.len() == 0 {
        Seq::empty()
    } else {
        boot_actions(state, events.drop_last()).push(
            boot_next(boot_final(state, events.drop_last()), events.last()).1,
        )
    }
}

/// While the wait seeks a device, a device list with at least one online
/// device moves it to awaiting the boot of the first of them, and it reads
/// the clock next.
pub proof fn law_boot_takes_first_listed_device(timeout_secs: u64, serials: Vec<String>)
    requires
        serials.len() >= 1,
    ensures
        boot_next(BootWait::SeekingDevice { timeout_secs }, BootEvent::Devices { serials }) == (
        BootWait::AwaitingBoot { timeout_secs, serial: serials@[0] },
        BootAction::ReadClock,
        ),
{
}

/// A device that is online when the devices are listed and reports
/// `sys.boot_completed` as `1` before the deadline is reported ready: the
/// wait lists the devices, reads the clock, queries the first device, and
/// reports it ready, ending there.
pub proof fn law_online_device_that_boots_is_ready(
    timeout_secs: u64,
    serials: Vec<String>,
    stdout: Vec<u8>,
)
    requires
        serials.len() >= 1,
        trim(spec_utf8_lossy(stdout@)) == "1"@,
    ensures
        ({
            let events = seq![
                BootEvent::Clock { deadline_passed: false },
                BootEvent::Devices { serials },
                BootEvent::Clock { deadline_passed: false },
                BootEvent::BootProp { stdout },
            ];
            let start = BootWait::SeekingDevice { timeout_secs };
            &&& boot_actions(start, events) == seq![
                BootAction::ListDevices,
                BootAction::ReadClock,
                BootAction::QueryBootCompleted { serial: serials@[0] },
                BootAction::Ready { serial: serials@[0] },
            ]
            &&& boot_final(start, events) == BootWait::Finished
        }),
{
    let e0 = BootEvent::Clock { deadline_passed: false };
    let e1 = BootEvent::Devices { serials };
    let e2 = BootEvent::Clock { deadline_passed: false };
    let e3 = BootEvent::BootProp { stdout };
    let events = seq![e0, e1, e2, e3];
    let start = BootWait::SeekingDevice { timeout_secs };
    let waiting = BootWait::AwaitingBoot { timeout_secs, serial: serials@[0] };
    let p0 = Seq::<BootEvent>::empty();
    let p1 = seq![e0];
    let p2 = seq![e0, e1];
    let p3 = seq![e0, e1, e2];
    assert(p1.drop_last() =~= p0);
    assert(p2.drop_last() =~= p1);
    assert(p3.drop_last() =~= p2);
    assert(events.drop_last() =~= p3);
    assert(boot_final(start, p0) == start);
    assert(boot_actions(start, p0) == Seq::<BootAction>::empty());
    assert(boot_final(start, p1) == start);
    assert(boot_actions(start, p1) =~= seq![BootAction::ListDevices]);
    assert(boot_final(start, p2) == waiting);
    assert(boot_actions(start, p2) =~= seq![BootAction::ListDevices, BootAction::ReadClock]);
    assert(boot_final(start, p3) == waiting);
    assert(boot_actions(start, p3) =~= seq![
        BootAction::ListDevices,
        BootAction::ReadClock,
        BootAction::QueryBootCompleted { serial: serials@[0] },
    ]);
    assert(boot_final(start, events) == BootWait::Finished);
    assert(boot_actions(start, events) =~= seq![
        BootAction::ListDevices,
        BootAction::ReadClock,
        BootAction::QueryBootCompleted { serial: serials@[0] },
        BootAction::Ready { serial: serials@[0] },
    ]);
}

/// `events[j]` is a non-empty device list whose first serial is `serial`.
pub open spec fn listed_first(events: Seq<BootEvent>, j: int, serial: String) -> bool {
    events[j] matches BootEvent::Devices { serials } && serials.len() > 0 && serials@[0] == serial
}

proof fn lemma_boot_state(timeout_secs: u64, events: Seq<BootEvent>)
    ensures
        boot_actions(BootWait::SeekingDevice { timeout_secs }, events).len() == events.len(),
        boot_final(BootWait::SeekingDevice { timeout_secs }, events) matches BootWait::SeekingDevice {
            timeout_secs: t,
        } ==> t == timeout_secs,
        boot_final(BootWait::SeekingDevice { timeout_secs }, events) matches BootWait::AwaitingBoot {
            timeout_secs: t,
            serial,
        } ==> t == timeout_secs && exists|j: int|
            0 <= j < events.len() && #[trigger] listed_first(events, j, serial),
    decreases events.len(),
{
    if events.len() > 0 {
        let prefix = events.drop_last();
        lemma_boot_state(timeout_secs, prefix);
        let st = boot_final(BootWait::SeekingDevice { timeout_secs }, prefix);
        let next = boot_next(st, events.last()).0;
        if let BootWait::AwaitingBoot { timeout_secs: t, serial } = next {
            if let BootWait::AwaitingBoot { serial: s0, .. } = st {
                let j = choose|j: int| 0 <= j < prefix.len() && #[trigger] listed_first(prefix, j, s0);
                assert(prefix[j] == events[j]);
                assert(listed_first(events, j, serial));
            } else {
                assert(listed_first(events, events.len() - 1, serial));
            }
        }
    }
}

/// The wait reports a device ready only when its `sys.boot_completed` has
/// just read `1`, and only for a device that came first in a device list
/// it was given before.
pub proof fn law_boot_ready_only_when_booted(
    timeout_secs: u64,
    events: Seq<BootEvent>,
    i: int,
    serial: String,
)
    requires
        0 <= i < events.len(),
        boot_actions(BootWait::SeekingDevice { timeout_secs }, events)[i] == (BootAction::Ready {
            serial,
        }),
    ensures
        events[i] matches BootEvent::BootProp { stdout } && trim(spec_utf8_lossy(stdout@))
            == "1"@,
        exists|j: int| 0 <= j < i && #[trigger] listed_first(events, j, serial),
    decreases events.len(),
{
    let s0 = BootWait::SeekingDevice { timeout_secs };
    let prefix = events.drop_last();
    lemma_boot_state(timeout_secs, prefix);
    if i < events.len() - 1 {
        assert(boot_actions(s0, events)[i] == boot_actions(s0, prefix)[i]);
        law_boot_ready_only_when_booted(timeout_secs, prefix, i, serial);
        assert(prefix[i] == events[i]);
        let j = choose|j: int| 0 <= j < i && #[trigger] listed_first(prefix, j, serial);
        assert(prefix[j] == events[j]);
        assert(listed_first(events, j, serial));
    } else {
        let st = boot_final(s0, prefix);
        assert(boot_actions(s0, events)[i] == boot_next(st, events.last()).1);
        assert(events.last() == events[i]);
        let j = choose|j: int| 0 <= j < prefix.len() && #[trigger] listed_first(prefix, j, serial);
        assert(prefix[j] == events[j]);
        assert(listed_first(events, j, serial));
    }
}

/// The wait fails only on a clock reading past the deadline, and then with
/// the timeout it was started with: `DeviceTimeout` while no device is
/// online, `BootTimeout` once one is.
pub proof fn law_boot_fails_only_on_timeout(timeout_secs: u64, events: Seq<BootEvent>, i: int)
    requires
        0 <= i < events.len(),
        boot_actions(BootWait::SeekingDevice { timeout_secs }, events)[i] is Fail,
    ensures
        events[i] == (BootEvent::Clock { deadline_passed: true }),
        boot_actions(BootWait::SeekingDevice { timeout_secs }, events)[i] == (BootAction::Fail {
            error: EmuError::DeviceTimeout { secs: timeout_secs },
        }) || boot_actions(BootWait::SeekingDevice { timeout_secs }, events)[i] == (
        BootAction::Fail { error: EmuError::BootTimeout { secs: timeout_secs } }),
    decreases events.len(),
{
    let s0 = BootWait::SeekingDevice { timeout_secs };
    let prefix = events.drop_last();
    lemma_boot_state(timeout_secs, prefix);
    if i < events.len() - 1 {
        assert(boot_actions(s0, events)[i] == boot_actions(s0, prefix)[i]);
        law_boot_fails_only_on_timeout(timeout_secs, prefix, i);
        assert(prefix[i] == events[i]);
    }
}

} // verus!

verus! {

/// An application id written on the first line of `aapt2 dump badging`
/// output as `package: name='<id>'` (an id without whitespace) is the one
/// read back, whatever lines follow.
pub proof fn law_badging_name_read_back(id: Seq<char>, later: Seq<char>)
    requires
        forall|i: int| 0 <= i < id.len() ==> !is_ws(#[trigger] id[i]),
    ensures
        badging_package_name(
            "package:"@ + seq![' '] + "name='"@ + id + seq!['\'', '\n'] + later,
        ) == Some(id),
{
    reveal_strlit("package:");
    reveal_strlit("name='");
    let key = "package:"@;
    let nk = "name='"@;
    let word = nk + id + seq!['\''];
    let rest = seq![' '] + word;
    let line = key + rest;
    let out = "package:"@ + seq![' '] + "name='"@ + id + seq!['\'', '\n'] + later;
    let tail = seq!['\n'] + later;
    assert(out =~= line + tail);
    assert forall|i: int| 0 <= i < word.len() implies !is_sep(#[trigger] word[i], Sep::Space) by {
        if i >= nk.len() && i < nk.len() + id.len() {
            assert(word[i] == id[i - nk.len()]);
        }
    }
    assert forall|i: int| 0 <= i < line.len() implies !is_sep(#[trigger] line[i], Sep::Line) by {
        if i >= key.len() + 1 + nk.len() && i < key.len() + 1 + nk.len() + id.len() {
            assert(line[i] == id[i - key.len() - 1 - nk.len()]);
            assert(!is_ws(id[i - key.len() - 1 - nk.len()]));
        }
    }
    lemma_split_no_sep(line, Sep::Line);
    lemma_split_concat(line, tail, Sep::Line);
    lemma_split_concat(seq!['\n'], later, Sep::Line);
    assert(seq!['\n'].drop_last() =~= Seq::<char>::empty());
    assert(split_by(Seq::<char>::empty(), Sep::Line) == seq![Seq::<char>::empty()]);
    assert(seq!['\n'].last() == '\n');
    assert(split_by(seq!['\n'], Sep::Line) =~= seq![Seq::<char>::empty(), Seq::<char>::empty()]);
    lemma_split_by_len(later, Sep::Line);
    assert(split_by(tail, Sep::Line)[0] =~= Seq::<char>::empty());
    let lines = split_by(out, Sep::Line);
    assert(lines[0] =~= line);
    assert(line.subrange(0, key.len() as int) =~= key);
    assert(line.skip(key.len() as int) =~= rest);
    lemma_split_no_sep(word, Sep::Space);
    lemma_split_concat(seq![' '], word, Sep::Space);
    assert(seq![' '].drop_last() =~= Seq::<char>::empty());
    assert(split_by(Seq::<char>::empty(), Sep::Space) == seq![Seq::<char>::empty()]);
    assert(seq![' '].last() == ' ');
    assert(is_ws(' '));
    assert(split_by(seq![' '], Sep::Space) =~= seq![Seq::<char>::empty(), Seq::<char>::empty()]);
    let ws = split_by(rest, Sep::Space);
    assert(ws =~= seq![Seq::<char>::empty(), word]);
    assert(name_value(Seq::<char>::empty()) is None);
    assert(word.subrange(0, nk.len() as int) =~= nk);
    assert(word.skip(nk.len() as int) =~= id.push('\''));
    assert(id.push('\'').drop_last() =~= id);
    assert(name_value(word) == Some(id));
    assert(ws.drop_first() =~= seq![word]);
    assert(seq![word].drop_first() =~= Seq::<Seq<char>>::empty());
    assert(seq![word][0] == word);
    assert(first_name_value(seq![word]) == Some(id));
    assert(ws[0] == Seq::<char>::empty());
    assert(first_name_value(ws) == first_name_value(ws.drop_first()));
    assert(first_name_value(ws) == Some(id));
    assert(line_package_name(line) == Some(id));
}

/// AVD names printed one per line, as `emulator -list-avds` prints them,
/// are read back as they were printed.
pub proof fn law_avd_names_read_back(names: Seq<Seq<char>>)
    requires
        forall|i: int|
            0 <= i < names.len() ==> (#[trigger] names[i]).len() > 0 && trim(names[i]) == names[i],
        forall|i: int, j: int| 0 <= i < names.len() && 0 <= j < names[i].len() ==> #[trigger] names[i][j] != '\n',
    ensures
        avd_names(line_feed_joined(names)) == names,
{
    let empty = Seq::<char>::empty();
    lemma_split_joined_lines(names);
    assert(trim(empty) == empty);
    assert(trimmed_lines(line_feed_joined(names)) =~= names.push(empty));
    lemma_non_empty_all(names);
    assert(names.push(empty).drop_last() =~= names);
}

/// One line of `adb devices` output for a device that is online.
pub open spec fn online_device_line(serial: Seq<char>) -> Seq<char> {
    serial + seq!['\t'] + "device"@
}

/// The serial of an online device's line is read back.
proof fn lemma_device_line_serial(serial: Seq<char>)
    requires
        serial.len() > 0,
        forall|j: int| 0 <= j < serial.len() ==> !is_ws(#[trigger] serial[j]),
    ensures
        device_serial(online_device_line(serial)) == Some(serial),
{
    reveal_strlit("device");
    let empty = Seq::<char>::empty();
    let dev = "device"@;
    assert forall|j: int| 0 <= j < serial.len() implies !is_sep(#[trigger] serial[j], Sep::Space) by {}
    lemma_split_no_sep(serial, Sep::Space);
    assert forall|j: int| 0 <= j < dev.len() implies !is_sep(#[trigger] dev[j], Sep::Space) by {}
    lemma_split_no_sep(dev, Sep::Space);
    let tab = seq!['\t'];
    assert(tab.drop_last() =~= empty);
    assert(tab.last() == '\t');
    assert(is_ws('\t'));
    assert(split_by(empty, Sep::Space) == seq![empty]);
    assert(split_by(tab, Sep::Space) =~= seq![empty, empty]);
    lemma_split_concat(serial, tab, Sep::Space);
    assert(split_by(serial + tab, Sep::Space) =~= seq![serial, empty]);
    lemma_split_concat(serial + tab, dev, Sep::Space);
    let ws = seq![serial, dev];
    assert(split_by(online_device_line(serial), Sep::Space) =~= ws);
    assert forall|i: int| 0 <= i < ws.len() implies (#[trigger] ws[i]).len() > 0 by {}
    lemma_non_empty_all(ws);
    assert(words(online_device_line(serial)) == ws);
}

/// The serials of online devices' lines are read back, in order.
proof fn lemma_device_lines_serials(list: Seq<Seq<char>>)
    requires
        forall|i: int| 0 <= i < list.len() ==> (#[trigger] list[i]).len() > 0,
        forall|i: int, j: int| 0 <= i < list.len() && 0 <= j < list[i].len() ==> !is_ws(#[trigger] list[i][j]),
    ensures
        serials(list.map_values(|s: Seq<char>| online_device_line(s))) == list,
    decreases list.len(),
{
    if list.len() > 0 {
        let init = list.drop_last();
        assert forall|i: int, j: int| 0 <= i < init.len() && 0 <= j < init[i].len() implies !is_ws(
            #[trigger] init[i][j],
        ) by {
            assert(init[i] == list[i]);
        }
        assert forall|i: int| 0 <= i < init.len() implies (#[trigger] init[i]).len() > 0 by {
            assert(init[i] == list[i]);
        }
        lemma_device_lines_serials(init);
        let last = list[list.len() - 1];
        assert forall|j: int| 0 <= j < last.len() implies !is_ws(#[trigger] last[j]) by {
            assert(!is_ws(list[list.len() - 1][j]));
        }
        lemma_device_line_serial(last);
        let lines = list.map_values(|s: Seq<char>| online_device_line(s));
        assert(lines.drop_last() =~= init.map_values(|s: Seq<char>| online_device_line(s)));
        assert(lines.last() == online_device_line(last));
        assert(init.push(last) =~= list);
    }
}

/// `adb devices` output, a header line then one line per online device,
/// is read back as those devices' serials, in order.
pub proof fn law_online_devices_read_back(header: Seq<char>, list: Seq<Seq<char>>)
    requires
        forall|j: int| 0 <= j < header.len() ==> #[trigger] header[j] != '\n',
        forall|i: int| 0 <= i < list.len() ==> (#[trigger] list[i]).len() > 0,
        forall|i: int, j: int| 0 <= i < list.len() && 0 <= j < list[i].len() ==> !is_ws(#[trigger] list[i][j]),
    ensures
        online_serials(
            line_feed_joined(seq![header] + list.map_values(|s: Seq<char>| online_device_line(s))),
        ) == list,
{
    reveal_strlit("device");
    let empty = Seq::<char>::empty();
    let dl = list.map_values(|s: Seq<char>| online_device_line(s));
    let lines = seq![header] + dl;
    assert forall|i: int, j: int| 0 <= i < lines.len() && 0 <= j < lines[i].len() implies #[trigger] lines[i][j]
        != '\n' by {
        if i > 0 {
            let s = list[i - 1];
            assert(lines[i] == online_device_line(s));
            if j < s.len() {
                assert(!is_ws(list[i - 1][j]));
            }
        }
    }
    lemma_split_joined_lines(lines);
    assert(lines.push(empty).skip(1) =~= dl.push(empty));
    assert(split_by(empty, Sep::Space) == seq![empty]);
    assert(seq![empty].drop_last() =~= Seq::<Seq<char>>::empty());
    assert(seq![empty].last().len() == 0);
    assert(non_empty(seq![empty]) == non_empty(Seq::<Seq<char>>::empty()));
    assert(words(empty) =~= Seq::<Seq<char>>::empty());
    assert(device_serial(empty) is None);
    assert(dl.push(empty).drop_last() =~= dl);
    lemma_device_lines_serials(list);
}

/// One line of `adb devices` output: a serial, a tab and the device's
/// state.
pub open spec fn device_state_line(device: (Seq<char>, Seq<char>)) -> Seq<char> {
    device.0 + seq!['\t'] + device.1
}

/// A line `serial<TAB>state` yields the serial exactly when the state is
/// `device`.
proof fn lemma_state_line_serial(serial: Seq<char>, state: Seq<char>)
    requires
        serial.len() > 0,
        state.len() > 0,
        forall|j: int| 0 <= j < serial.len() ==> !is_ws(#[trigger] serial[j]),
        forall|j: int| 0 <= j < state.len() ==> !is_ws(#[trigger] state[j]),
    ensures
        device_serial(device_state_line((serial, state))) == (if state == "device"@ {
            Some(serial)
        } else {
            None
        }),
{
    let empty = Seq::<char>::empty();
    assert forall|j: int| 0 <= j < serial.len() implies !is_sep(#[trigger] serial[j], Sep::Space) by {}
    lemma_split_no_sep(serial, Sep::Space);
    assert forall|j: int| 0 <= j < state.len() implies !is_sep(#[trigger] state[j], Sep::Space) by {}
    lemma_split_no_sep(state, Sep::Space);
    let tab = seq!['\t'];
    assert(tab.drop_last() =~= empty);
    assert(tab.last() == '\t');
    assert(is_ws('\t'));
    assert(split_by(empty, Sep::Space) == seq![empty]);
    assert(split_by(tab, Sep::Space) =~= seq![empty, empty]);
    lemma_split_concat(serial, tab, Sep::Space);
    assert(split_by(serial + tab, Sep::Space) =~= seq![serial, empty]);
    lemma_split_concat(serial + tab, state, Sep::Space);
    let ws = seq![serial, state];
    assert(split_by(device_state_line((serial, state)), Sep::Space) =~= ws);
    assert forall|i: int| 0 <= i < ws.len() implies (#[trigger] ws[i]).len() > 0 by {}
    lemma_non_empty_all(ws);
    assert(words(device_state_line((serial, state))) == ws);
}

/// Serial and state are non-empty words without whitespace.
pub open spec fn well_formed_devices(list: Seq<(Seq<char>, Seq<char>)>) -> bool {
    forall|i: int|
        0 <= i < list.len() ==> {
            &&& (#[trigger] list[i]).0.len() > 0
            &&& list[i].1.len() > 0
            &&& forall|j: int| 0 <= j < list[i].0.len() ==> !is_ws(#[trigger] list[i].0[j])
            &&& forall|j: int| 0 <= j < list[i].1.len() ==> !is_ws(#[trigger] list[i].1[j])
        }
}

/// The serials of the devices in state `device`, in order.
proof fn lemma_state_lines_serials(list: Seq<(Seq<char>, Seq<char>)>)
    requires
        well_formed_devices(list),
    ensures
        serials(list.map_values(|d: (Seq<char>, Seq<char>)| device_state_line(d))) == list.filter(
            |d: (Seq<char>, Seq<char>)| d.1 == "device"@,
        ).map_values(|d: (Seq<char>, Seq<char>)| d.0),
    decreases list.len(),
{
    let pred = |d: (Seq<char>, Seq<char>)| d.1 == "device"@;
    let first = |d: (Seq<char>, Seq<char>)| d.0;
    reveal(Seq::filter);
    if list.len() > 0 {
        let init = list.drop_last();
        assert forall|i: int| 0 <= i < init.len() implies {
            &&& (#[trigger] init[i]).0.len() > 0
            &&& init[i].1.len() > 0
            &&& forall|j: int| 0 <= j < init[i].0.len() ==> !is_ws(#[trigger] init[i].0[j])
            &&& forall|j: int| 0 <= j < init[i].1.len() ==> !is_ws(#[trigger] init[i].1[j])
        } by {
            assert(init[i] == list[i]);
        }
        lemma_state_lines_serials(init);
        let last = list.last();
        assert(last == list[list.len() - 1]);
        lemma_state_line_serial(last.0, last.1);
        let lines = list.map_values(|d: (Seq<char>, Seq<char>)| device_state_line(d));
        assert(lines.drop_last() =~= init.map_values(|d: (Seq<char>, Seq<char>)| device_state_line(d)));
        assert(lines.last() == device_state_line(last));
        assert(list.filter(pred) == (if pred(list.last()) {
            list.drop_last().filter(pred).push(list.last())
        } else {
            list.drop_last().filter(pred)
        }));
        assert(list.filter(pred).map_values(first) =~= (if pred(last) {
            init.filter(pred).push(last)
        } else {
            init.filter(pred)
        }).map_values(first));
        if pred(last) {
            assert(init.filter(pred).push(last).map_values(first) =~= init.filter(pred).map_values(
                first,
            ).push(last.0));
        }
    }
}

/// `adb devices` output, a header line then one `serial<TAB>state` line per
/// device, lists as online exactly the devices whose state is `device`, in
/// order: a device in any other state (`unauthorized`, `offline`,
/// `recovery`, ...) is left out.
pub proof fn law_only_state_device_is_online(header: Seq<char>, list: Seq<(Seq<char>, Seq<char>)>)
    requires
        forall|j: int| 0 <= j < header.len() ==> #[trigger] header[j] != '\n',
        well_formed_devices(list),
    ensures
        online_serials(
            line_feed_joined(
                seq![header] + list.map_values(|d: (Seq<char>, Seq<char>)| device_state_line(d)),
            ),
        ) == list.filter(|d: (Seq<char>, Seq<char>)| d.1 == "device"@).map_values(
            |d: (Seq<char>, Seq<char>)| d.0,
        ),
{
    let empty = Seq::<char>::empty();
    let dl = list.map_values(|d: (Seq<char>, Seq<char>)| device_state_line(d));
    let lines = seq![header] + dl;
    assert forall|i: int, j: int| 0 <= i < lines.len() && 0 <= j < lines[i].len() implies #[trigger] lines[i][j]
        != '\n' by {
        if i > 0 {
            let d = list[i - 1];
            assert(lines[i] == device_state_line(d));
            if j < d.0.len() {
                assert(!is_ws(list[i - 1].0[j]));
            } else if j > d.0.len() {
                assert(lines[i][j] == d.1[j - d.0.len() - 1]);
                assert(!is_ws(list[i - 1].1[j - d.0.len() - 1]));
            }
        }
    }
    lemma_split_joined_lines(lines);
    assert(lines.push(empty).skip(1) =~= dl.push(empty));
    assert(split_by(empty, Sep::Space) == seq![empty]);
    assert(seq![empty].drop_last() =~= Seq::<Seq<char>>::empty());
    assert(seq![empty].last().len() == 0);
    assert(non_empty(seq![empty]) == non_empty(Seq::<Seq<char>>::empty()));
    assert(words(empty) =~= Seq::<Seq<char>>::empty());
    assert(device_serial(empty) is None);
    assert(dl.push(empty).drop_last() =~= dl);
    lemma_state_lines_serials(list);
}

} // verus!
