//! The tools that compiling needs: which of them are used, and how the linker
//! is called.

use crate::lines::{shown_lines, texts};
use crate::table::{has, starts_with, views};
use crate::text::{
    all_digits, cat, chars_of, decimal, digits_value, is_blank, is_blank_spec, is_digit,
    is_digit_spec, push_decimal, same, string_of,
};
use vstd::prelude::*;

verus! {

/// The major version of LLVM that the compiler is built against.
pub const REQUIRED_LLVM_MAJOR: u32 = 22;

/// The first version from `i` on that has the required major number.
pub open spec fn first_required(versions: Seq<(String, String, u32)>, i: int) -> Option<int>
    decreases versions.len() - i,
{
    if i < 0 || i >= versions.len() {
        None
    } else if versions[i].2 == REQUIRED_LLVM_MAJOR {
        Some(i)
    } else {
        first_required(versions, i + 1)
    }
}

/// The first tool, with its version, that has the required major number.
pub fn pick_llvm_for_dev(versions: &[(String, String, u32)]) -> (r: Option<(String, String, u32)>)
    ensures
        match first_required(versions@, 0) {
            Some(i) => r matches Some(p) && p.0@ == versions@[i].0@ && p.1@ == versions@[i].1@
                && p.2 == REQUIRED_LLVM_MAJOR,
            None => r is None,
        },
{
    let mut i: usize = 0;
    while i < versions.len()
        invariant
            i <= versions@.len(),
            first_required(versions@, 0) == first_required(versions@, i as int),
        decreases versions@.len() - i,
    {
        if versions[i].2 == REQUIRED_LLVM_MAJOR {
            return Some((versions[i].0.clone(), versions[i].1.clone(), versions[i].2));
        }
        i += 1;
    }
    None
}

pub open spec fn optional_text(t: Option<String>) -> Seq<Seq<char>> {
    match t {
        Some(s) => seq![s@],
        None => seq![],
    }
}

/// The tools to ask for their version: the one under the configured prefix,
/// the configured one, and the usual names.
pub fn llvm_config_candidates(under_prefix: Option<String>, configured: Option<String>) -> (r: Vec<
    String,
>)
    ensures
        views(r@) == optional_text(under_prefix) + optional_text(configured) + seq![
            "llvm-config-"@ + decimal(REQUIRED_LLVM_MAJOR as nat),
            "llvm-config"@,
        ],
{
    let mut out: Vec<String> = Vec::new();
    match under_prefix {
        Some(tool) => out.push(tool),
        None => {},
    }
    assert(views(out@) =~= optional_text(under_prefix));
    let ghost one = views(out@);
    match configured {
        Some(tool) => out.push(tool),
        None => {},
    }
    assert(views(out@) =~= one + optional_text(configured));
    let ghost two = views(out@);
    let mut versioned = "llvm-config-".to_owned();
    push_decimal(&mut versioned, REQUIRED_LLVM_MAJOR as u64);
    out.push(versioned);
    out.push("llvm-config".to_owned());
    assert(views(out@) =~= two + seq![
        "llvm-config-"@ + decimal(REQUIRED_LLVM_MAJOR as nat),
        "llvm-config"@,
    ]);
    out
}

/// The texts without those that stand further in front already.
pub open spec fn firsts(v: Seq<Seq<char>>) -> Seq<Seq<char>>
    decreases v.len(),
{
    if v.len() == 0 {
        seq![]
    } else if v.drop_last().contains(v.last()) {
        firsts(v.drop_last())
    } else {
        firsts(v.drop_last()).push(v.last())
    }
}

/// The tools, each where it stands first, so that none is asked twice.
pub fn distinct_tools(tools: &Vec<String>) -> (r: Vec<String>)
    ensures
        views(r@) == firsts(views(tools@)),
{
    let mut out: Vec<String> = Vec::new();
    let mut i: usize = 0;
    let ghost all = views(tools@);
    assert(views(out@) =~= firsts(all.take(0)));
    while i < tools.len()
        invariant
            i <= tools@.len(),
            all == views(tools@),
            views(out@) == firsts(all.take(i as int)),
            forall|x: Seq<char>| #[trigger]
                views(out@).contains(x) == all.take(i as int).contains(x),
        decreases tools@.len() - i,
    {
        let ghost before = views(out@);
        let ghost front = all.take(i as int);
        let ghost name = tools@[i as int]@;
        let seen = has(&out, tools[i].as_str());
        proof {
            assert(seen == before.contains(name)) by {
                if seen {
                    let j = choose|j: int| 0 <= j < out@.len() && (#[trigger] out@[j])@ == name;
                    assert(before[j] == name);
                }
                if before.contains(name) {
                    let j = choose|j: int| 0 <= j < before.len() && before[j] == name;
                    assert(out@[j]@ == name);
                }
            }
            assert(all.take(i + 1) =~= front.push(name));
            assert(front.push(name).drop_last() =~= front);
        }
        if !seen {
            out.push(tools[i].clone());
            assert(views(out@) =~= before.push(name));
        }
        proof {
            broadcast use vstd::seq_lib::group_seq_properties;

            assert forall|x: Seq<char>| #[trigger]
                views(out@).contains(x) == all.take(i + 1).contains(x) by {
                assert(before.contains(x) == front.contains(x));
            }
        }
        i += 1;
    }
    assert(all.take(i as int) =~= all);
    out
}

/// The programs that may link: the one of the linked LLVM's version, and any
/// other C driver.
pub fn linker_candidates(linked_major: &str) -> (r: Vec<String>)
    ensures
        views(r@) == seq!["clang-"@ + linked_major@, "clang"@, "cc"@, "gcc"@],
{
    let mut out: Vec<String> = Vec::new();
    out.push(cat("clang-", linked_major));
    out.push("clang".to_owned());
    out.push("cc".to_owned());
    out.push("gcc".to_owned());
    assert(views(out@) =~= seq!["clang-"@ + linked_major@, "clang"@, "cc"@, "gcc"@]);
    out
}

/// What stands in front of the first dot.
pub open spec fn before_dot(s: Seq<char>) -> Seq<char> {
    s.take(crate::source::scan(s, 0, |c: char| c != '.'))
}

fn front_of(text: &str) -> (r: String)
    ensures
        r@ == before_dot(text@),
{
    let chars = chars_of(text);
    let ghost p = |c: char| c != '.';
    let mut i: usize = 0;
    while i < chars.len() && chars[i] != '.'
        invariant
            i <= chars@.len(),
            chars@ == text@,
            p == (|c: char| c != '.'),
            crate::source::scan(text@, 0, p) == crate::source::scan(text@, i as int, p),
        decreases chars@.len() - i,
    {
        i += 1;
    }
    assert(crate::source::scan(text@, i as int, p) == i);
    assert(text@.take(i as int) =~= chars@.subrange(0, i as int));
    string_of(&chars, 0, i)
}

/// The digits of a number that may have a plus sign in front.
pub open spec fn unsigned_digits(s: Seq<char>) -> Seq<char> {
    if s.len() > 0 && s[0] == '+' {
        s.drop_first()
    } else {
        s
    }
}

/// The number that a text denotes, where it fits 32 bits.
pub open spec fn number_of(s: Seq<char>) -> Option<nat> {
    let d = unsigned_digits(s);
    if d.len() > 0 && all_digits(d) && digits_value(d) <= u32::MAX {
        Some(digits_value(d))
    } else {
        None
    }
}

proof fn more_digits_more_value(s: Seq<char>, n: int)
    requires
        0 <= n <= s.len(),
        all_digits(s),
    ensures
        digits_value(s.take(n)) <= digits_value(s),
    decreases s.len() - n,
{
    if n < s.len() {
        more_digits_more_value(s.drop_last(), n);
        assert(s.drop_last().take(n) =~= s.take(n));
        assert(is_digit_spec(s.last()));
    } else {
        assert(s.take(n) =~= s);
    }
}

/// The number that a text denotes, where it fits 32 bits.
pub fn parse_number(text: &str) -> (r: Option<u32>)
    ensures
        match r {
            Some(n) => number_of(text@) == Some(n as nat),
            None => number_of(text@) is None,
        },
{
    let chars = chars_of(text);
    let start: usize = if chars.len() > 0 && chars[0] == '+' {
        1
    } else {
        0
    };
    let ghost d = unsigned_digits(text@);
    assert(d =~= chars@.skip(start as int));
    if chars.len() == start {
        return None;
    }
    let mut value: u64 = 0;
    let mut i: usize = start;
    assert(d.take(0) =~= seq![]);
    while i < chars.len()
        invariant
            start <= i <= chars@.len(),
            d == chars@.skip(start as int),
            d == unsigned_digits(text@),
            d.len() > 0,
            value <= u32::MAX,
            all_digits(d.take(i - start)),
            value == digits_value(d.take(i - start)),
        decreases chars@.len() - i,
    {
        let c = chars[i];
        let ghost front = d.take(i - start);
        let ghost more = d.take(i - start + 1);
        assert(more.drop_last() =~= front);
        assert(d[i - start] == c);
        if !is_digit(c) {
            assert(!all_digits(d)) by {
                assert(!is_digit_spec(d[i - start]));
            }
            return None;
        }
        value = value * 10 + ((c as u8) - 48) as u64;
        assert(all_digits(more)) by {
            assert forall|k: int| 0 <= k < more.len() implies is_digit_spec(#[trigger] more[k]) by {
                if k < front.len() {
                    assert(more[k] == front[k]);
                }
            }
        }
        assert(value == digits_value(more));
        if value > u32::MAX as u64 {
            proof {
                if all_digits(d) {
                    more_digits_more_value(d, i - start + 1);
                }
            }
            return None;
        }
        i += 1;
    }
    assert(d.take(i - start) =~= d);
    Some(value as u32)
}

/// The major number of a version.
pub open spec fn major_number(version: Seq<char>) -> Option<nat> {
    number_of(before_dot(version))
}

/// The major number of a version.
pub fn major_of(version: &str) -> (r: Option<u32>)
    ensures
        match r {
            Some(n) => major_number(version@) == Some(n as nat),
            None => major_number(version@) is None,
        },
{
    parse_number(front_of(version).as_str())
}

/// The end of the word that starts at `p`.
pub open spec fn word_end(s: Seq<char>, p: int) -> int {
    crate::source::scan(s, p, |c: char| !is_blank_spec(c))
}

/// The first word from offset `p` on that has a major number.
pub open spec fn first_version(s: Seq<char>, p: int) -> Option<nat>
    decreases s.len() - p,
{
    if p < 0 || p >= s.len() {
        None
    } else if is_blank_spec(s[p]) {
        first_version(s, p + 1)
    } else {
        let e = word_end(s, p);
        match major_number(s.subrange(p, e)) {
            Some(n) => Some(n),
            None => if p < e <= s.len() {
                first_version(s, e)
            } else {
                None
            },
        }
    }
}

/// The major number in the first line of what a tool prints of its version.
pub open spec fn printed_major(output: Seq<char>) -> Option<nat> {
    if shown_lines(output).len() > 0 {
        first_version(shown_lines(output)[0], 0)
    } else {
        None
    }
}

fn version_in(line: &str) -> (r: Option<u32>)
    ensures
        match r {
            Some(n) => first_version(line@, 0) == Some(n as nat),
            None => first_version(line@, 0) is None,
        },
{
    let chars = chars_of(line);
    let ghost s = line@;
    let ghost inside = |c: char| !is_blank_spec(c);
    let mut p: usize = 0;
    while p < chars.len()
        invariant
            p <= chars@.len(),
            chars@ == s,
            s == line@,
            inside == (|c: char| !is_blank_spec(c)),
            first_version(s, 0) == first_version(s, p as int),
        decreases chars@.len() - p,
    {
        if is_blank(chars[p]) {
            p += 1;
        } else {
            let from: usize = p;
            let mut e: usize = p;
            while e < chars.len() && !is_blank(chars[e])
                invariant
                    from <= e <= chars@.len(),
                    chars@ == s,
                    inside == (|c: char| !is_blank_spec(c)),
                    crate::source::scan(s, from as int, inside) == crate::source::scan(
                        s,
                        e as int,
                        inside,
                    ),
                decreases chars@.len() - e,
            {
                e += 1;
            }
            assert(crate::source::scan(s, e as int, inside) == e);
            let word = string_of(&chars, from, e);
            match major_of(word.as_str()) {
                Some(n) => {
                    return Some(n);
                },
                None => {},
            }
            p = e;
        }
    }
    None
}

/// The major version in what a C driver prints of its version: that of the
/// first word of the first line that starts with a number and a dot, or is one.
pub fn extract_clang_major(output: &str) -> (r: Option<u32>)
    ensures
        match r {
            Some(n) => printed_major(output@) == Some(n as nat),
            None => printed_major(output@) is None,
        },
{
    let lines = crate::lines::display_lines(output);
    if lines.len() == 0 {
        assert(texts(lines@).len() == 0);
        return None;
    }
    assert(texts(lines@)[0] == lines@[0]@);
    version_in(lines[0].as_str())
}

/// The first word from offset `p` on that starts with a digit.
pub open spec fn numbered_word(s: Seq<char>, p: int) -> Option<Seq<char>>
    decreases s.len() - p,
{
    if p < 0 || p >= s.len() {
        None
    } else if is_blank_spec(s[p]) {
        numbered_word(s, p + 1)
    } else {
        let e = word_end(s, p);
        if is_digit_spec(s[p]) {
            Some(s.subrange(p, e))
        } else if p < e <= s.len() {
            numbered_word(s, e)
        } else {
            None
        }
    }
}

/// The version in what a C driver prints: the first word of its first line
/// that starts with a digit.
pub fn printed_version(output: &str) -> (r: Option<String>)
    ensures
        match r {
            Some(w) => shown_lines(output@).len() > 0 && numbered_word(shown_lines(output@)[0], 0)
                == Some(w@),
            None => shown_lines(output@).len() > 0 ==> numbered_word(
                shown_lines(output@)[0],
                0,
            ) is None,
        },
{
    let lines = crate::lines::display_lines(output);
    if lines.len() == 0 {
        assert(texts(lines@).len() == 0);
        return None;
    }
    assert(texts(lines@)[0] == lines@[0]@);
    let chars = chars_of(lines[0].as_str());
    let ghost s = lines@[0]@;
    let ghost inside = |c: char| !is_blank_spec(c);
    let mut p: usize = 0;
    while p < chars.len()
        invariant
            p <= chars@.len(),
            chars@ == s,
            s == shown_lines(output@)[0],
            shown_lines(output@).len() > 0,
            inside == (|c: char| !is_blank_spec(c)),
            numbered_word(s, 0) == numbered_word(s, p as int),
        decreases chars@.len() - p,
    {
        if is_blank(chars[p]) {
            p += 1;
        } else {
            let from: usize = p;
            let mut e: usize = p;
            while e < chars.len() && !is_blank(chars[e])
                invariant
                    from <= e <= chars@.len(),
                    chars@ == s,
                    inside == (|c: char| !is_blank_spec(c)),
                    crate::source::scan(s, from as int, inside) == crate::source::scan(
                        s,
                        e as int,
                        inside,
                    ),
                decreases chars@.len() - e,
            {
                e += 1;
            }
            assert(crate::source::scan(s, e as int, inside) == e);
            if is_digit(chars[from]) {
                return Some(string_of(&chars, from, e));
            }
            p = e;
        }
    }
    None
}

/// The libraries that a statically linked runtime needs on a platform.
pub open spec fn native_deps(target_os: Seq<char>) -> Seq<&'static str> {
    if target_os == "macos"@ {
        seq![]
    } else if target_os == "windows"@ {
        seq![
            "-ladvapi32",
            "-lbcrypt",
            "-ldbghelp",
            "-lkernel32",
            "-lntdll",
            "-lole32",
            "-loleaut32",
            "-lsecur32",
            "-lshell32",
            "-luserenv",
            "-luuid",
            "-lws2_32",
        ]
    } else {
        seq!["-lm", "-lz", "-lpthread", "-ldl"]
    }
}

/// The libraries that a statically linked runtime needs on a platform.
pub fn native_runtime_deps(target_os: &str) -> (r: Vec<&'static str>)
    ensures
        r@ == native_deps(target_os@),
{
    let mut out: Vec<&'static str> = Vec::new();
    if same(target_os, "macos") {
    } else if same(target_os, "windows") {
        out.push("-ladvapi32");
        out.push("-lbcrypt");
        out.push("-ldbghelp");
        out.push("-lkernel32");
        out.push("-lntdll");
        out.push("-lole32");
        out.push("-loleaut32");
        out.push("-lsecur32");
        out.push("-lshell32");
        out.push("-luserenv");
        out.push("-luuid");
        out.push("-lws2_32");
    } else {
        out.push("-lm");
        out.push("-lz");
        out.push("-lpthread");
        out.push("-ldl");
    }
    assert(out@ =~= native_deps(target_os@));
    out
}

/// An argument of the linker. Paths are filled in by the caller, as they are.
#[derive(Debug, Clone, Copy, PartialEq, Eq)]
pub enum LinkerArg {
    Flag(&'static str),
    /// The object file.
    Object,
    /// The directory of the runtime library.
    LibraryDir,
    /// That directory, behind `-Wl,-rpath,`.
    RunPath,
    /// The archive of the runtime, by its path.
    Archive,
}

/// What a platform's linker is told besides the object and the directory.
pub open spec fn dialect(target_os: Seq<char>) -> Seq<LinkerArg> {
    if target_os == "windows"@ {
        seq![
            LinkerArg::Flag("-Wl,/NODEFAULTLIB:libcmt"),
            LinkerArg::Flag("-Wl,/NODEFAULTLIB:libucrt"),
            LinkerArg::Flag("-Wl,/DEFAULTLIB:msvcrt"),
        ]
    } else if target_os == "macos"@ {
        seq![LinkerArg::RunPath, LinkerArg::Flag("-Wl,-dead_strip")]
    } else {
        seq![
            LinkerArg::RunPath,
            LinkerArg::Flag("-Wl,--disable-new-dtags"),
            LinkerArg::Flag("-Wl,--gc-sections"),
        ]
    }
}

/// Flags as arguments.
pub open spec fn flags(v: Seq<&'static str>) -> Seq<LinkerArg> {
    Seq::new(v.len(), |i: int| LinkerArg::Flag(v[i]))
}

/// The arguments that link an object on a platform.
pub open spec fn linker_args(target_os: Seq<char>, named_archive: bool, static_only: bool) -> Seq<
    LinkerArg,
> {
    seq![
        LinkerArg::Object,
        LinkerArg::Flag("-L"),
        LinkerArg::LibraryDir,
        LinkerArg::Flag("-ffunction-sections"),
        LinkerArg::Flag("-fdata-sections"),
    ] + dialect(target_os) + seq![
        if named_archive {
            LinkerArg::Archive
        } else {
            LinkerArg::Flag("-lmux_runtime")
        },
    ] + (if static_only {
        flags(native_deps(target_os))
    } else {
        seq![]
    })
}

/// The arguments that link an object on a platform. `named_archive` says
/// whether the runtime's archive has another name than the usual one;
/// `static_only` whether there is no shared library beside it. An archive does
/// not record what it needs, so the libraries that it needs follow it.
pub fn build_linker_args_for(target_os: &str, named_archive: bool, static_only: bool) -> (r: Vec<
    LinkerArg,
>)
    ensures
        r@ == linker_args(target_os@, named_archive, static_only),
{
    proof {
        reveal_strlit("windows");
        reveal_strlit("macos");
        assert("windows"@.len() != "macos"@.len());
    }
    let mut out: Vec<LinkerArg> = Vec::new();
    out.push(LinkerArg::Object);
    out.push(LinkerArg::Flag("-L"));
    out.push(LinkerArg::LibraryDir);
    out.push(LinkerArg::Flag("-ffunction-sections"));
    out.push(LinkerArg::Flag("-fdata-sections"));
    let ghost front = out@;
    if same(target_os, "windows") {
        out.push(LinkerArg::Flag("-Wl,/NODEFAULTLIB:libcmt"));
        out.push(LinkerArg::Flag("-Wl,/NODEFAULTLIB:libucrt"));
        out.push(LinkerArg::Flag("-Wl,/DEFAULTLIB:msvcrt"));
    } else {
        out.push(LinkerArg::RunPath);
        if same(target_os, "macos") {
            out.push(LinkerArg::Flag("-Wl,-dead_strip"));
        } else {
            out.push(LinkerArg::Flag("-Wl,--disable-new-dtags"));
            out.push(LinkerArg::Flag("-Wl,--gc-sections"));
        }
    }
    assert(out@ =~= front + dialect(target_os@));
    if named_archive {
        out.push(LinkerArg::Archive);
    } else {
        out.push(LinkerArg::Flag("-lmux_runtime"));
    }
    let ghost most = out@;
    if static_only {
        let deps = native_runtime_deps(target_os);
        let ghost all = flags(deps@);
        let mut i: usize = 0;
        assert(out@ =~= most + all.take(0));
        while i < deps.len()
            invariant
                i <= deps@.len(),
                all == flags(deps@),
                out@ == most + all.take(i as int),
            decreases deps@.len() - i,
        {
            out.push(LinkerArg::Flag(deps[i]));
            assert(out@ =~= most + all.take(i + 1));
            i += 1;
        }
        assert(all.take(i as int) =~= all);
    }
    assert(out@ =~= linker_args(target_os@, named_archive, static_only));
    out
}

/// The libraries that an archive needs come behind it on the linker's command
/// line, on every platform.
pub proof fn native_deps_follow_the_runtime(target_os: Seq<char>, named_archive: bool)
    ensures
        ({
            let args = linker_args(target_os, named_archive, true);
            let n = native_deps(target_os).len();
            let place = args.len() - n - 1;
            &&& 0 <= place < args.len()
            &&& args[place] == (if named_archive {
                LinkerArg::Archive
            } else {
                LinkerArg::Flag("-lmux_runtime")
            })
            &&& args.skip(place + 1) == flags(native_deps(target_os))
        }),
{
    let args = linker_args(target_os, named_archive, true);
    let n = native_deps(target_os).len();
    let place = args.len() - n - 1;
    assert(args.skip(place + 1) =~= flags(native_deps(target_os)));
}

/// The usual name of the runtime's archive.
pub fn static_library_name(windows: bool) -> (r: &'static str)
    ensures
        r == (if windows {
            "mux_runtime.lib"
        } else {
            "libmux_runtime.a"
        }),
{
    if windows {
        "mux_runtime.lib"
    } else {
        "libmux_runtime.a"
    }
}

/// The name of the runtime's shared library.
pub fn dynamic_library_name(target_os: &str) -> (r: &'static str)
    ensures
        r == (if target_os@ == "windows"@ {
            "mux_runtime.dll"
        } else if target_os@ == "macos"@ {
            "libmux_runtime.dylib"
        } else {
            "libmux_runtime.so"
        }),
{
    if same(target_os, "windows") {
        "mux_runtime.dll"
    } else if same(target_os, "macos") {
        "libmux_runtime.dylib"
    } else {
        "libmux_runtime.so"
    }
}

/// Whether a file's name is that of an archive with a hash in its name, as it
/// is built as a dependency.
pub open spec fn is_hashed_archive(name: Seq<char>, windows: bool) -> bool {
    (if windows {
        "mux_runtime-"@
    } else {
        "libmux_runtime-"@
    }).is_prefix_of(name) && (crate::driver::fixes::ends_with_spec(name, ".a"@)
        || crate::driver::fixes::ends_with_spec(name, ".lib"@))
}

fn ends_with(text: &str, end: &str) -> (r: bool)
    ensures
        r == crate::driver::fixes::ends_with_spec(text@, end@),
{
    let t = chars_of(text);
    let e = chars_of(end);
    if e.len() > t.len() {
        return false;
    }
    let tail = string_of(&t, t.len() - e.len(), t.len());
    assert(tail@ =~= text@.skip(text@.len() - end@.len()));
    same(tail.as_str(), end)
}

/// Whether a file's name is that of an archive with a hash in its name.
pub fn is_runtime_archive(name: &str, windows: bool) -> (r: bool)
    ensures
        r == is_hashed_archive(name@, windows),
{
    let prefix = if windows {
        "mux_runtime-"
    } else {
        "libmux_runtime-"
    };
    starts_with(name, prefix) && (ends_with(name, ".a") || ends_with(name, ".lib"))
}

/// Which archive of a directory is the runtime's.
#[derive(Debug, Clone, Copy, PartialEq, Eq, Structural)]
pub enum ArchiveChoice {
    /// The one with the usual name.
    Usual,
    /// The only one with a hash in its name.
    Hashed,
}

/// Which archive is taken. Where there are several with a hash in their names,
/// none of them is: it might be a stale one.
pub fn runtime_static_lib_path(usual_exists: bool, hashed_count: usize) -> (r: ArchiveChoice)
    ensures
        r == (if !usual_exists && hashed_count == 1 {
            ArchiveChoice::Hashed
        } else {
            ArchiveChoice::Usual
        }),
{
    if !usual_exists && hashed_count == 1 {
        ArchiveChoice::Hashed
    } else {
        ArchiveChoice::Usual
    }
}

/// Which library of a directory is linked.
#[derive(Debug, Clone, Copy, PartialEq, Eq, Structural)]
pub enum RuntimeLibrary {
    Archive,
    Shared,
}

/// Which library of a directory is linked. A shared library is no input of
/// the linker on Windows.
pub fn find_runtime_lib_in_dir(windows: bool, archive_exists: bool, shared_exists: bool) -> (r: Option<
    RuntimeLibrary,
>)
    ensures
        r == (if archive_exists {
            Some(RuntimeLibrary::Archive)
        } else if !windows && shared_exists {
            Some(RuntimeLibrary::Shared)
        } else {
            None
        }),
{
    if archive_exists {
        Some(RuntimeLibrary::Archive)
    } else if !windows && shared_exists {
        Some(RuntimeLibrary::Shared)
    } else {
        None
    }
}

/// Whether the archive is linked alone, so that what it needs has to be named.
/// On Windows the archive is linked whatever stands beside it.
pub fn runtime_lib_dir_is_static_only(
    windows: bool,
    archive_exists: bool,
    shared_exists: bool,
) -> (r: bool)
    ensures
        r == (archive_exists && (windows || !shared_exists)),
{
    archive_exists && (windows || !shared_exists)
}

} // verus!
