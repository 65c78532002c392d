//! What the tool decides.

use crate::diagnostic::report::{Diagnostic, Level};
use crate::driver::attempts::object_name_text;
use crate::driver::banner::padded;
use crate::driver::doctor::{capital, llvm_check};
use crate::driver::fixes::{blocks, left_out, shown_part};
use crate::driver::report::{link_failure, said};
use crate::driver::toolchain::{
    firsts, first_required, linker_args, major_number, native_deps, LinkerArg,
};
use crate::lines::trimmed_end;
use crate::source::{scan, scan_is_first};
use crate::table::joined;
use crate::text::{decimal, decimal_is_injective, decimal_reads_back};
use vstd::prelude::*;

verus! {

/// An error always blocks; a warning does where warnings are denied; and nothing
/// else does.
pub proof fn errors_block(ds: Seq<Diagnostic>, deny_warnings: bool, i: int)
    requires
        0 <= i < ds.len(),
    ensures
        ds[i].level == Level::Error ==> blocks(ds, deny_warnings),
        ds[i].level == Level::Warning ==> blocks(ds, true),
        (forall|k: int| 0 <= k < ds.len() ==> (#[trigger] ds[k]).level == Level::Warning)
            ==> !blocks(ds, false),
        blocks(ds, false) ==> blocks(ds, true),
{
    let level = ds[i].level;
    assert(blocks(ds, true));
}

/// What is shown and what is left out are together everything, in order.
pub proof fn nothing_is_lost_silently(ds: Seq<Diagnostic>)
    ensures
        shown_part(ds).len() + left_out(ds) == ds.len(),
        shown_part(ds) == ds.take(shown_part(ds).len() as int),
{
    assert(ds.take(ds.len() as int) =~= ds);
}

/// The tool that is picked has the required version, and no tool in front of it
/// has.
pub proof fn first_fitting_tool_is_picked(versions: Seq<(String, String, u32)>, i: int, major: u32)
    requires
        0 <= i <= versions.len(),
        major == crate::driver::toolchain::REQUIRED_LLVM_MAJOR,
    ensures
        match first_required(versions, i) {
            Some(k) => i <= k < versions.len() && versions[k].2 == major && forall|j: int|
                i <= j < k ==> (#[trigger] versions[j]).2 != major,
            None => forall|j: int| i <= j < versions.len() ==> (#[trigger] versions[j]).2 != major,
        },
    decreases versions.len() - i,
{
    if i < versions.len() && versions[i].2 != major {
        first_fitting_tool_is_picked(versions, i + 1, major);
    }
}

/// Every tool is asked, and none is asked twice.
pub proof fn tools_are_asked_once(v: Seq<Seq<char>>)
    ensures
        firsts(v).no_duplicates(),
        forall|t: Seq<char>| #[trigger] firsts(v).contains(t) <==> v.contains(t),
        v.len() > 0 ==> firsts(v).len() > 0 && firsts(v)[0] == v[0],
    decreases v.len(),
{
    if v.len() > 0 {
        let front = v.drop_last();
        tools_are_asked_once(front);
        let last = v.last();
        assert forall|t: Seq<char>| v.contains(t) implies front.contains(t) || t == last by {
            let i = choose|i: int| 0 <= i < v.len() && v[i] == t;
            if i < v.len() - 1 {
                assert(front[i] == t);
            }
        }
        assert forall|t: Seq<char>| front.contains(t) implies v.contains(t) by {
            let i = choose|i: int| 0 <= i < front.len() && front[i] == t;
            assert(v[i] == t);
        }
        assert(v[v.len() - 1] == last);
        assert(v.contains(last));
        if !front.contains(last) {
            let r = firsts(front).push(last);
            assert(firsts(v) == r);
            assert(!firsts(front).contains(last));
            assert forall|t: Seq<char>| r.contains(t) <==> firsts(front).contains(t) || t
                == last by {
                if firsts(front).contains(t) {
                    let i = choose|i: int| 0 <= i < firsts(front).len() && firsts(front)[i] == t;
                    assert(r[i] == t);
                }
                if t == last {
                    assert(r[r.len() - 1] == t);
                }
                if r.contains(t) && t != last {
                    let i = choose|i: int| 0 <= i < r.len() && r[i] == t;
                    assert(firsts(front)[i] == t);
                }
            }
        }
        if front.len() > 0 {
            assert(front[0] == v[0]);
        } else {
            assert(firsts(front).len() == 0);
        }
    }
}

/// The number in front of the first dot of a version is its major number.
pub proof fn written_version_reads_back(n: nat, rest: Seq<char>)
    requires
        n <= u32::MAX,
    ensures
        major_number(decimal(n) + seq!['.'] + rest) == Some(n),
        major_number(decimal(n)) == Some(n),
{
    let d = decimal(n);
    let v = d + seq!['.'] + rest;
    let skip = |c: char| c != '.';
    decimal_reads_back(n);
    scan_is_first(v, 0, skip);
    scan_is_first(d, 0, skip);
    let e = scan(v, 0, skip);
    assert(!skip(v[d.len() as int]));
    if e < d.len() {
        assert(v[e] == d[e]);
        assert(crate::text::is_digit_spec(d[e]));
        assert(skip(v[e]));
    }
    if e > d.len() {
        assert(skip(v[d.len() as int]));
    }
    assert(v.take(e) =~= d);
    let f = scan(d, 0, skip);
    if f < d.len() {
        assert(crate::text::is_digit_spec(d[f]));
        assert(skip(d[f]));
    }
    assert(d.take(f) =~= d);
    assert(crate::text::is_digit_spec(d[0]));
}

/// Names of object files differ where the running numbers do.
pub proof fn object_names_are_apart(name: Seq<char>, process: nat, time: nat, a: nat, b: nat)
    requires
        object_name_text(name, process, time, a) == object_name_text(name, process, time, b),
    ensures
        a == b,
{
    let x = object_name_text(name, process, time, a);
    let y = object_name_text(name, process, time, b);
    let front = "mux-"@ + name + "-"@ + decimal(process) + "-"@ + decimal(time) + "-"@;
    let tail = ".o"@;
    assert(x == front + decimal(a) + tail);
    assert(y == front + decimal(b) + tail);
    assert(x.len() == front.len() + decimal(a).len() + tail.len());
    assert(y.len() == front.len() + decimal(b).len() + tail.len());
    assert(x.subrange(front.len() as int, x.len() - tail.len()) =~= decimal(a));
    assert(y.subrange(front.len() as int, y.len() - tail.len()) =~= decimal(b));
    decimal_is_injective(a, b);
}

/// The linker gets the object first. The runtime stands behind it and in front
/// of what the runtime itself needs, which is named only where the runtime is
/// linked statically.
pub proof fn runtime_stands_between(target_os: Seq<char>, named_archive: bool, i: int)
    requires
        0 <= i < native_deps(target_os).len(),
    ensures
        ({
            let shared = linker_args(target_os, named_archive, false);
            let all = linker_args(target_os, named_archive, true);
            &&& shared.len() > 1
            &&& shared[0] == LinkerArg::Object
            &&& shared.last() == (if named_archive {
                LinkerArg::Archive
            } else {
                LinkerArg::Flag("-lmux_runtime")
            })
            &&& all.len() == shared.len() + native_deps(target_os).len()
            &&& all.take(shared.len() as int) == shared
            &&& all[shared.len() + i] == LinkerArg::Flag(native_deps(target_os)[i])
        }),
{
    let shared = linker_args(target_os, named_archive, false);
    let all = linker_args(target_os, named_archive, true);
    assert(all.take(shared.len() as int) =~= shared);
}

/// A failed link is reported with both streams, where they say something.
pub proof fn link_failure_tells_both_streams(stdout: Seq<char>, stderr: Seq<char>)
    requires
        trimmed_end(stdout).len() > 0,
        trimmed_end(stderr).len() > 0,
    ensures
        link_failure(stdout, stderr) == "linking failed: "@ + (trimmed_end(stderr) + "\n"@
            + trimmed_end(stdout)),
        link_failure(stdout, seq![]) == "linking failed: "@ + trimmed_end(stdout),
        link_failure(seq![], stderr) == "linking failed: "@ + trimmed_end(stderr),
{
    let both = said(stdout, stderr);
    assert(both =~= seq![trimmed_end(stderr), trimmed_end(stdout)]);
    assert(both.drop_last() =~= seq![trimmed_end(stderr)]);
    reveal_with_fuel(joined, 2);
    assert(joined(both, "\n"@) == trimmed_end(stderr) + "\n"@ + trimmed_end(stdout));
    assert(said(stdout, seq![]) =~= seq![trimmed_end(stdout)]);
    assert(said(seq![], stderr) =~= seq![trimmed_end(stderr)]);
}

/// Letters count alike in either case, and nothing else is changed.
pub proof fn capitals_ignore_case(c: char, d: char)
    ensures
        'a' <= c <= 'z' && 'A' <= d <= 'Z' && c as int - 'a' as int == d as int - 'A' as int
            ==> capital(c) == d && capital(d) == d,
        !('a' <= c <= 'z') ==> capital(c) == c,
{
}

/// A text that is cut or filled up has the width, starts with what fits of the
/// text, and goes on with spaces.
pub proof fn padding_keeps_the_text(s: Seq<char>, w: nat)
    ensures
        padded(s, w).len() == w,
        s.len() <= w ==> padded(s, w).take(s.len() as int) == s,
        s.len() > w ==> padded(s, w) == s.take(w as int),
        forall|i: int| s.len() <= i < w ==> #[trigger] padded(s, w)[i] == ' ',
{
    if s.len() <= w {
        assert(padded(s, w).take(s.len() as int) =~= s);
    } else {
        assert(padded(s, w) =~= s.take(w as int));
    }
}

/// The check of LLVM fails where contributors need it and it is missing, and
/// only there.
pub proof fn llvm_is_needed_by_contributors(
    dev_mode: bool,
    selected: Option<(String, String, u32)>,
    target_os: Seq<char>,
)
    ensures
        llvm_check(dev_mode, selected, target_os).1 <==> !dev_mode || selected is Some,
{
}

} // verus!
