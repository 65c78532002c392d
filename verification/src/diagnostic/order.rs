//! The order in which diagnostics are presented.

use crate::diagnostic::catalog::DiagnosticCode;
use crate::diagnostic::files::{FileModel, Files};
use crate::diagnostic::report::{text_of, Diagnostic, Label, LabelStyle, Level};
use crate::lexer::Span;
use crate::text::chars_of;
use vstd::prelude::*;

verus! {

// A sort key is a sequence of numbers. Each part of a diagnostic is written so
// that comparing keys from the left compares the parts: a text as its
// characters counted from one with a zero at its end, so that a prefix comes
// first; an absent part as zero and a present one behind a one.

/// Whether a key comes before another, from place `i` on.
pub open spec fn less_from(a: Seq<u64>, b: Seq<u64>, i: int) -> bool
    decreases a.len() - i,
{
    if i < 0 || i >= b.len() {
        false
    } else if i >= a.len() {
        true
    } else if a[i] != b[i] {
        a[i] < b[i]
    } else {
        less_from(a, b, i + 1)
    }
}

/// Whether a key comes before another.
pub open spec fn less(a: Seq<u64>, b: Seq<u64>) -> bool {
    less_from(a, b, 0)
}

pub open spec fn key_of_text(s: Seq<char>) -> Seq<u64> {
    Seq::new(s.len(), |i: int| (s[i] as u32 + 1) as u64).push(0)
}

pub open spec fn key_of_optional_text(t: Option<Seq<char>>) -> Seq<u64> {
    match t {
        None => seq![0u64],
        Some(s) => seq![1u64] + key_of_text(s),
    }
}

pub open spec fn key_of_optional_number(n: Option<usize>) -> Seq<u64> {
    match n {
        None => seq![0u64],
        Some(v) => seq![1u64, v as u64],
    }
}

pub open spec fn key_of_span(s: Span) -> Seq<u64> {
    seq![s.row_start as u64] + key_of_optional_number(s.row_end) + seq![s.col_start as u64]
        + key_of_optional_number(s.col_end)
}

pub open spec fn key_of_style(s: LabelStyle) -> u64 {
    match s {
        LabelStyle::Primary => 0,
        LabelStyle::Secondary => 1,
    }
}

pub open spec fn key_of_level(l: Level) -> u64 {
    match l {
        Level::Error => 0,
        Level::Warning => 1,
    }
}

pub open spec fn key_of_label(l: Label) -> Seq<u64> {
    seq![1u64] + key_of_span(l.span) + key_of_optional_text(text_of(l.message)) + seq![
        key_of_style(l.style),
    ]
}

/// The first `n` labels.
pub open spec fn key_of_labels(labels: Seq<Label>, n: int) -> Seq<u64>
    decreases n,
{
    if n <= 0 || n > labels.len() {
        seq![]
    } else {
        key_of_labels(labels, n - 1) + key_of_label(labels[n - 1])
    }
}

/// The displayed path of a diagnostic's file; without one the empty text.
pub open spec fn path_of(d: Diagnostic, files: Seq<FileModel>) -> Seq<char> {
    match d.file_id {
        Some(id) => if id.0 < files.len() {
            files[id.0 as int].0
        } else {
            seq![]
        },
        None => seq![],
    }
}

/// Where a diagnostic's first label starts; without labels behind everything.
pub open spec fn place_of(d: Diagnostic) -> Seq<u64> {
    if d.labels@.len() > 0 {
        seq![d.labels@[0].span.row_start as u64, d.labels@[0].span.col_start as u64]
    } else {
        seq![usize::MAX as u64, usize::MAX as u64]
    }
}

/// The place of a code among all codes, in the order of their declaration.
pub open spec fn code_rank(code: DiagnosticCode) -> u64 {
    match code {
        DiagnosticCode::LexUnexpectedCharacter => 0,
        DiagnosticCode::LexUnterminatedString => 1,
        DiagnosticCode::LexUnknownEscape => 2,
        DiagnosticCode::LexUnterminatedComment => 3,
        DiagnosticCode::LexInvalidNumber => 4,
        DiagnosticCode::LexRangeLiteral => 5,
        DiagnosticCode::LexInvalidCharacterLiteral => 6,
        DiagnosticCode::ParseExpectedToken => 7,
        DiagnosticCode::ParseExpectedExpression => 8,
        DiagnosticCode::ParseExpectedType => 9,
        DiagnosticCode::ParseControlFlowOutsideLoop => 10,
        DiagnosticCode::ParseReturnOutsideFunction => 11,
        DiagnosticCode::ParseErrorLimit => 12,
        DiagnosticCode::UndefinedName => 13,
        DiagnosticCode::DuplicateDeclaration => 14,
        DiagnosticCode::TypeMismatch => 15,
        DiagnosticCode::WrongArgumentCount => 16,
        DiagnosticCode::MissingReturn => 17,
        DiagnosticCode::NonExhaustiveMatch => 18,
        DiagnosticCode::CannotAssign => 19,
        DiagnosticCode::UnknownMember => 20,
        DiagnosticCode::InvalidOperation => 21,
        DiagnosticCode::DivisionByZero => 22,
        DiagnosticCode::NestedFunctionCapture => 23,
        DiagnosticCode::InvalidPattern => 24,
        DiagnosticCode::InvalidTypeArguments => 25,
        DiagnosticCode::UninitializedReadError => 26,
        DiagnosticCode::ModuleNotFound => 27,
        DiagnosticCode::ImportFailure => 28,
        DiagnosticCode::InternalCompiler => 29,
        DiagnosticCode::UnusedBinding => 30,
        DiagnosticCode::ShadowedBinding => 31,
        DiagnosticCode::UnreachableCode => 32,
        DiagnosticCode::DeadAssignment => 33,
        DiagnosticCode::UninitializedRead => 34,
        DiagnosticCode::ConstantCondition => 35,
        DiagnosticCode::RedundantConstruct => 36,
    }
}

/// The sort key of a diagnostic: path, place, level, code, message, help and
/// labels.
pub open spec fn key(d: Diagnostic, files: Seq<FileModel>) -> Seq<u64> {
    key_of_text(path_of(d, files)) + place_of(d) + seq![key_of_level(d.level), code_rank(d.code)]
        + key_of_text(d.message@) + key_of_optional_text(text_of(d.help)) + key_of_labels(
        d.labels@,
        d.labels@.len() as int,
    ) + seq![0u64]
}

pub fn rank_of_code(code: DiagnosticCode) -> (r: u64)
    ensures
        r == code_rank(code),
{
    match code {
        DiagnosticCode::LexUnexpectedCharacter => 0,
        DiagnosticCode::LexUnterminatedString => 1,
        DiagnosticCode::LexUnknownEscape => 2,
        DiagnosticCode::LexUnterminatedComment => 3,
        DiagnosticCode::LexInvalidNumber => 4,
        DiagnosticCode::LexRangeLiteral => 5,
        DiagnosticCode::LexInvalidCharacterLiteral => 6,
        DiagnosticCode::ParseExpectedToken => 7,
        DiagnosticCode::ParseExpectedExpression => 8,
        DiagnosticCode::ParseExpectedType => 9,
        DiagnosticCode::ParseControlFlowOutsideLoop => 10,
        DiagnosticCode::ParseReturnOutsideFunction => 11,
        DiagnosticCode::ParseErrorLimit => 12,
        DiagnosticCode::UndefinedName => 13,
        DiagnosticCode::DuplicateDeclaration => 14,
        DiagnosticCode::TypeMismatch => 15,
        DiagnosticCode::WrongArgumentCount => 16,
        DiagnosticCode::MissingReturn => 17,
        DiagnosticCode::NonExhaustiveMatch => 18,
        DiagnosticCode::CannotAssign => 19,
        DiagnosticCode::UnknownMember => 20,
        DiagnosticCode::InvalidOperation => 21,
        DiagnosticCode::DivisionByZero => 22,
        DiagnosticCode::NestedFunctionCapture => 23,
        DiagnosticCode::InvalidPattern => 24,
        DiagnosticCode::InvalidTypeArguments => 25,
        DiagnosticCode::UninitializedReadError => 26,
        DiagnosticCode::ModuleNotFound => 27,
        DiagnosticCode::ImportFailure => 28,
        DiagnosticCode::InternalCompiler => 29,
        DiagnosticCode::UnusedBinding => 30,
        DiagnosticCode::ShadowedBinding => 31,
        DiagnosticCode::UnreachableCode => 32,
        DiagnosticCode::DeadAssignment => 33,
        DiagnosticCode::UninitializedRead => 34,
        DiagnosticCode::ConstantCondition => 35,
        DiagnosticCode::RedundantConstruct => 36,
    }
}

fn push_text(key: &mut Vec<u64>, text: &str)
    ensures
        final(key)@ == old(key)@ + key_of_text(text@),
{
    let chars = chars_of(text);
    let mut i: usize = 0;
    let ghost whole = Seq::new(text@.len(), |i: int| (text@[i] as u32 + 1) as u64);
    assert(key@ =~= old(key)@ + whole.take(0));
    while i < chars.len()
        invariant
            i <= chars@.len(),
            chars@ == text@,
            whole == Seq::new(text@.len(), |i: int| (text@[i] as u32 + 1) as u64),
            key@ == old(key)@ + whole.take(i as int),
        decreases chars@.len() - i,
    {
        key.push(chars[i] as u32 as u64 + 1);
        i += 1;
        assert(key@ =~= old(key)@ + whole.take(i as int));
    }
    key.push(0);
    assert(key@ =~= old(key)@ + key_of_text(text@));
}

fn push_optional_text(key: &mut Vec<u64>, text: &Option<String>)
    ensures
        final(key)@ == old(key)@ + key_of_optional_text(text_of(*text)),
{
    match text {
        None => key.push(0),
        Some(s) => {
            key.push(1);
            push_text(key, s.as_str());
        },
    }
    assert(key@ =~= old(key)@ + key_of_optional_text(text_of(*text)));
}

fn push_optional_number(key: &mut Vec<u64>, n: Option<usize>)
    ensures
        final(key)@ == old(key)@ + key_of_optional_number(n),
{
    match n {
        None => key.push(0),
        Some(v) => {
            key.push(1);
            key.push(v as u64);
        },
    }
    assert(key@ =~= old(key)@ + key_of_optional_number(n));
}

fn push_label(key: &mut Vec<u64>, label: &Label)
    ensures
        final(key)@ == old(key)@ + key_of_label(*label),
{
    key.push(1);
    key.push(label.span.row_start as u64);
    push_optional_number(key, label.span.row_end);
    key.push(label.span.col_start as u64);
    push_optional_number(key, label.span.col_end);
    push_optional_text(key, &label.message);
    key.push(
        match label.style {
            LabelStyle::Primary => 0,
            LabelStyle::Secondary => 1,
        },
    );
    assert(key@ =~= old(key)@ + key_of_label(*label));
}

/// The sort key of a diagnostic.
pub fn sort_key(diagnostic: &Diagnostic, files: &Files) -> (r: Vec<u64>)
    ensures
        r@ == key(*diagnostic, files@),
{
    let mut out: Vec<u64> = Vec::new();
    let path = match diagnostic.file_id {
        Some(id) => match files.path(id) {
            Some(path) => path,
            None => "",
        },
        None => "",
    };
    proof {
        reveal_strlit("");
        assert(path@ =~= path_of(*diagnostic, files@));
    }
    push_text(&mut out, path);
    if diagnostic.labels.len() > 0 {
        out.push(diagnostic.labels[0].span.row_start as u64);
        out.push(diagnostic.labels[0].span.col_start as u64);
    } else {
        out.push(usize::MAX as u64);
        out.push(usize::MAX as u64);
    }
    out.push(
        match diagnostic.level {
            Level::Error => 0,
            Level::Warning => 1,
        },
    );
    out.push(rank_of_code(diagnostic.code));
    push_text(&mut out, diagnostic.message.as_str());
    push_optional_text(&mut out, &diagnostic.help);
    let ghost front = out@;
    let mut i: usize = 0;
    assert(out@ =~= front + key_of_labels(diagnostic.labels@, 0));
    while i < diagnostic.labels.len()
        invariant
            i <= diagnostic.labels@.len(),
            out@ == front + key_of_labels(diagnostic.labels@, i as int),
        decreases diagnostic.labels@.len() - i,
    {
        push_label(&mut out, &diagnostic.labels[i]);
        i += 1;
        assert(out@ =~= front + key_of_labels(diagnostic.labels@, i as int));
    }
    out.push(0);
    assert(out@ =~= key(*diagnostic, files@));
    out
}

pub fn key_less(a: &Vec<u64>, b: &Vec<u64>) -> (r: bool)
    ensures
        r == less(a@, b@),
{
    let mut i: usize = 0;
    while i < a.len() && i < b.len()
        invariant
            i <= a@.len(),
            i <= b@.len(),
            less(a@, b@) == less_from(a@, b@, i as int),
        decreases a@.len() - i,
    {
        if a[i] != b[i] {
            return a[i] < b[i];
        }
        i += 1;
    }
    i < b.len()
}

/// Ordered places with one more, behind those that it does not come before.
pub open spec fn placed(keys: Seq<Seq<u64>>, s: Seq<int>, n: int) -> Seq<int>
    decreases s.len(),
{
    if s.len() > 0 && less(keys[n], keys[s.last()]) {
        placed(keys, s.drop_last(), n).push(s.last())
    } else {
        s.push(n)
    }
}

/// The places `0..n` in the order of their keys; equal keys keep their order.
pub open spec fn arranged(keys: Seq<Seq<u64>>, n: int) -> Seq<int>
    decreases n,
{
    if n <= 0 {
        seq![]
    } else {
        placed(keys, arranged(keys, n - 1), n - 1)
    }
}

/// Keys as mathematical values.
pub open spec fn keys_of(v: Seq<Vec<u64>>) -> Seq<Seq<u64>> {
    Seq::new(v.len(), |i: int| v[i]@)
}

/// The keys of some diagnostics.
pub open spec fn sort_keys(ds: Seq<Diagnostic>, files: Seq<FileModel>) -> Seq<Seq<u64>> {
    Seq::new(ds.len(), |i: int| key(ds[i], files))
}

/// Numbers as mathematical values.
pub open spec fn ints(v: Seq<usize>) -> Seq<int> {
    Seq::new(v.len(), |i: int| v[i] as int)
}

fn place(keys: &Vec<Vec<u64>>, s: &mut Vec<usize>, n: usize)
    requires
        n < keys@.len(),
        forall|i: int| 0 <= i < old(s)@.len() ==> (#[trigger] old(s)@[i]) < keys@.len(),
    ensures
        ints(final(s)@) == placed(keys_of(keys@), ints(old(s)@), n as int),
        forall|i: int| 0 <= i < final(s)@.len() ==> (#[trigger] final(s)@[i]) < keys@.len(),
    decreases old(s)@.len(),
{
    let len: usize = s.len();
    if len > 0 && key_less(&keys[n], &keys[s[len - 1]]) {
        match s.pop() {
            Some(last) => {
                assert(ints(s@) =~= ints(old(s)@).drop_last());
                let ghost front = s@;
                assert forall|i: int| 0 <= i < front.len() implies (#[trigger] front[i])
                    < keys@.len() by {
                    assert(front[i] == old(s)@[i]);
                }
                place(keys, s, n);
                let ghost before = ints(s@);
                s.push(last);
                assert(ints(s@) =~= before.push(last as int));
            },
            None => {},
        }
    } else {
        s.push(n);
        assert(ints(s@) =~= ints(old(s)@).push(n as int));
    }
}

/// The places of some diagnostics in the order in which they are presented.
pub fn diagnostic_order(diagnostics: &[Diagnostic], files: &Files) -> (r: Vec<usize>)
    ensures
        ints(r@) == arranged(sort_keys(diagnostics@, files@), diagnostics@.len() as int),
        forall|i: int| 0 <= i < r@.len() ==> (#[trigger] r@[i]) < diagnostics@.len(),
{
    let mut keys: Vec<Vec<u64>> = Vec::new();
    let mut i: usize = 0;
    while i < diagnostics.len()
        invariant
            i == keys@.len() <= diagnostics@.len(),
            forall|j: int|
                0 <= j < i ==> (#[trigger] keys@[j])@ == key(diagnostics@[j], files@),
        decreases diagnostics@.len() - i,
    {
        keys.push(sort_key(&diagnostics[i], files));
        i += 1;
    }
    assert(keys_of(keys@) =~= sort_keys(diagnostics@, files@));
    let mut out: Vec<usize> = Vec::new();
    let mut n: usize = 0;
    assert(ints(out@) =~= seq![]);
    while n < keys.len()
        invariant
            n <= keys@.len(),
            ints(out@) == arranged(keys_of(keys@), n as int),
            forall|i: int| 0 <= i < out@.len() ==> (#[trigger] out@[i]) < keys@.len(),
        decreases keys@.len() - n,
    {
        place(&keys, &mut out, n);
        n += 1;
    }
    out
}

/// A key does not come before itself.
pub proof fn less_is_irreflexive(a: Seq<u64>, i: int)
    requires
        0 <= i,
    ensures
        !less_from(a, a, i),
    decreases a.len() - i,
{
    if i < a.len() {
        less_is_irreflexive(a, i + 1);
    }
}

/// Keys are ordered: what comes before a second key that comes before a third
/// comes before the third.
pub proof fn less_is_transitive(a: Seq<u64>, b: Seq<u64>, c: Seq<u64>, i: int)
    requires
        0 <= i,
        less_from(a, b, i),
        less_from(b, c, i),
    ensures
        less_from(a, c, i),
    decreases a.len() - i,
{
    if i < a.len() && i < b.len() && i < c.len() && a[i] == b[i] && b[i] == c[i] {
        less_is_transitive(a, b, c, i + 1);
    }
}

/// Of two different keys one comes before the other.
pub proof fn less_is_total(a: Seq<u64>, b: Seq<u64>, i: int)
    requires
        0 <= i <= a.len(),
        i <= b.len(),
        a.take(i) == b.take(i),
    ensures
        less_from(a, b, i) || less_from(b, a, i) || a == b,
    decreases a.len() - i,
{
    if i < a.len() && i < b.len() && a[i] == b[i] {
        assert(a.take(i + 1) =~= b.take(i + 1)) by {
            assert forall|k: int| 0 <= k < i + 1 implies #[trigger] a.take(i + 1)[k] == #[trigger] b.take(i + 1)[k] by {
                if k < i {
                    assert(a.take(i)[k] == b.take(i)[k]);
                }
            }
        }
        less_is_total(a, b, i + 1);
    } else if i == a.len() && i == b.len() {
        assert(a =~= a.take(i));
        assert(b =~= b.take(i));
    }
}

/// No key in the order comes before one that stands in front of it.
pub open spec fn in_order(keys: Seq<Seq<u64>>, s: Seq<int>) -> bool {
    forall|i: int, j: int|
        0 <= i < j < s.len() ==> !less(keys[#[trigger] s[j]], keys[#[trigger] s[i]])
}

proof fn placed_in_order(keys: Seq<Seq<u64>>, s: Seq<int>, n: int)
    requires
        in_order(keys, s),
    ensures
        in_order(keys, placed(keys, s, n)),
        placed(keys, s, n).len() == s.len() + 1,
        forall|i: int|
            0 <= i < placed(keys, s, n).len() ==> (#[trigger] placed(keys, s, n)[i]) == n
                || s.contains(placed(keys, s, n)[i]),
        placed(keys, s, n).to_multiset() == s.to_multiset().insert(n),
    decreases s.len(),
{
    broadcast use vstd::seq_lib::group_to_multiset_ensures;
    let r = placed(keys, s, n);
    if s.len() > 0 && less(keys[n], keys[s.last()]) {
        let front = s.drop_last();
        assert forall|i: int, j: int| 0 <= i < j < front.len() implies !less(
            keys[#[trigger] front[j]],
            keys[#[trigger] front[i]],
        ) by {
            assert(front[i] == s[i] && front[j] == s[j]);
        }
        placed_in_order(keys, front, n);
        let f = placed(keys, front, n);
        assert(s =~= front.push(s.last()));
        assert(r.to_multiset() =~= s.to_multiset().insert(n));
        assert forall|i: int| 0 <= i < r.len() implies (#[trigger] r[i]) == n || s.contains(
            r[i],
        ) by {
            if i < f.len() {
                assert(r[i] == f[i]);
                if f[i] != n {
                    let k = choose|k: int| 0 <= k < front.len() && front[k] == f[i];
                    assert(s[k] == f[i]);
                }
            } else {
                assert(r[i] == s[s.len() - 1]);
            }
        }
        assert forall|i: int, j: int| 0 <= i < j < r.len() implies !less(
            keys[#[trigger] r[j]],
            keys[#[trigger] r[i]],
        ) by {
            if j < f.len() {
                assert(r[i] == f[i] && r[j] == f[j]);
            } else {
                assert(r[j] == s.last());
                assert(r[i] == f[i]);
                if f[i] != n {
                    let k = choose|k: int| 0 <= k < front.len() && front[k] == f[i];
                    assert(!less(keys[s[s.len() - 1]], keys[s[k]]));
                } else if less(keys[s.last()], keys[n]) {
                    less_is_transitive(keys[n], keys[s.last()], keys[n], 0);
                    less_is_irreflexive(keys[n], 0);
                }
            }
        }
    } else {
        assert forall|i: int| 0 <= i < r.len() implies (#[trigger] r[i]) == n || s.contains(
            r[i],
        ) by {
            if i < s.len() {
                assert(r[i] == s[i]);
            }
        }
        assert forall|i: int, j: int| 0 <= i < j < r.len() implies !less(
            keys[#[trigger] r[j]],
            keys[#[trigger] r[i]],
        ) by {
            if j < s.len() {
                assert(r[i] == s[i] && r[j] == s[j]);
            } else {
                assert(r[j] == n);
                assert(r[i] == s[i]);
                if i < s.len() - 1 && less(keys[n], keys[s[i]]) {
                    assert(!less(keys[s[s.len() - 1]], keys[s[i]]));
                    assert(keys[s[i]].take(0) =~= keys[s.last()].take(0));
                    less_is_total(keys[s[i]], keys[s.last()], 0);
                    if less(keys[s[i]], keys[s.last()]) {
                        less_is_transitive(keys[n], keys[s[i]], keys[s.last()], 0);
                    }
                }
            }
        }
    }
}

/// Diagnostics come in the order of their keys, and each comes exactly once.
pub proof fn arranged_is_ordered(keys: Seq<Seq<u64>>, n: int)
    requires
        0 <= n,
    ensures
        in_order(keys, arranged(keys, n)),
        arranged(keys, n).len() == n,
        arranged(keys, n).to_multiset() == Seq::new(n as nat, |i: int| i).to_multiset(),
    decreases n,
{
    broadcast use vstd::seq_lib::group_to_multiset_ensures;
    if n > 0 {
        arranged_is_ordered(keys, n - 1);
        placed_in_order(keys, arranged(keys, n - 1), n - 1);
        assert(Seq::new(n as nat, |i: int| i) =~= Seq::new((n - 1) as nat, |i: int| i).push(
            n - 1,
        ));
    } else {
        assert(Seq::new(0, |i: int| i) =~= seq![]);
    }
}

/// The keys at some places.
pub open spec fn keys_at(keys: Seq<Seq<u64>>, s: Seq<int>) -> Seq<Seq<u64>> {
    Seq::new(s.len(), |i: int| keys[s[i]])
}

proof fn keys_at_push(keys: Seq<Seq<u64>>, s: Seq<int>, n: int)
    ensures
        keys_at(keys, s.push(n)) == keys_at(keys, s).push(keys[n]),
{
    assert(keys_at(keys, s.push(n)) =~= keys_at(keys, s).push(keys[n]));
}

proof fn placed_keys(keys: Seq<Seq<u64>>, s: Seq<int>, n: int)
    ensures
        keys_at(keys, placed(keys, s, n)).to_multiset() == keys_at(keys, s).to_multiset().insert(
            keys[n],
        ),
    decreases s.len(),
{
    broadcast use vstd::seq_lib::group_to_multiset_ensures;
    if s.len() > 0 && less(keys[n], keys[s.last()]) {
        let front = s.drop_last();
        placed_keys(keys, front, n);
        keys_at_push(keys, placed(keys, front, n), s.last());
        keys_at_push(keys, front, s.last());
        assert(s =~= front.push(s.last()));
        assert(keys_at(keys, placed(keys, s, n)).to_multiset() =~= keys_at(
            keys,
            s,
        ).to_multiset().insert(keys[n]));
    } else {
        keys_at_push(keys, s, n);
    }
}

proof fn arranged_keys(keys: Seq<Seq<u64>>, n: int)
    requires
        0 <= n <= keys.len(),
    ensures
        keys_at(keys, arranged(keys, n)).to_multiset() == keys.take(n).to_multiset(),
    decreases n,
{
    broadcast use vstd::seq_lib::group_to_multiset_ensures;
    if n > 0 {
        arranged_keys(keys, n - 1);
        placed_keys(keys, arranged(keys, n - 1), n - 1);
        assert(keys.take(n) =~= keys.take(n - 1).push(keys[n - 1]));
    } else {
        assert(keys_at(keys, seq![]) =~= keys.take(0));
    }
}

/// What is presented does not depend on the order in which diagnostics were
/// found: the same keys come in the same order.
pub proof fn presentation_ignores_input_order(a: Seq<Seq<u64>>, b: Seq<Seq<u64>>)
    requires
        a.to_multiset() == b.to_multiset(),
    ensures
        keys_at(a, arranged(a, a.len() as int)) == keys_at(b, arranged(b, b.len() as int)),
{
    broadcast use vstd::seq_lib::group_to_multiset_ensures;
    let leq = |x: Seq<u64>, y: Seq<u64>| !less(y, x);
    let x = keys_at(a, arranged(a, a.len() as int));
    let y = keys_at(b, arranged(b, b.len() as int));
    arranged_keys(a, a.len() as int);
    arranged_keys(b, b.len() as int);
    assert(a.take(a.len() as int) =~= a);
    assert(b.take(b.len() as int) =~= b);
    arranged_is_ordered(a, a.len() as int);
    arranged_is_ordered(b, b.len() as int);
    assert(vstd::relations::total_ordering(leq)) by {
        assert forall|p: Seq<u64>| #[trigger] leq(p, p) by {
            less_is_irreflexive(p, 0);
        }
        assert forall|p: Seq<u64>, q: Seq<u64>| #[trigger] leq(p, q) && #[trigger] leq(q, p) implies p
            == q by {
            assert(p.take(0) =~= q.take(0));
            less_is_total(p, q, 0);
        }
        assert forall|p: Seq<u64>, q: Seq<u64>, r: Seq<u64>| #[trigger]
            leq(p, q) && #[trigger] leq(q, r) implies leq(p, r) by {
            if less(r, p) {
                assert(p.take(0) =~= q.take(0));
                less_is_total(p, q, 0);
                if less(p, q) {
                    less_is_transitive(r, p, q, 0);
                }
            }
        }
        assert forall|p: Seq<u64>, q: Seq<u64>| #[trigger] leq(p, q) || #[trigger] leq(q, p) by {
            if less(q, p) && less(p, q) {
                less_is_transitive(p, q, p, 0);
                less_is_irreflexive(p, 0);
            }
        }
    }
    assert(vstd::relations::sorted_by(x, leq)) by {
        assert forall|i: int, j: int| 0 <= i < j < x.len() implies #[trigger] leq(x[i], x[j]) by {
            let s = arranged(a, a.len() as int);
            assert(!less(a[s[j]], a[s[i]]));
        }
    }
    assert(vstd::relations::sorted_by(y, leq)) by {
        assert forall|i: int, j: int| 0 <= i < j < y.len() implies #[trigger] leq(y[i], y[j]) by {
            let s = arranged(b, b.len() as int);
            assert(!less(b[s[j]], b[s[i]]));
        }
    }
    vstd::seq_lib::lemma_sorted_unique(x, y, leq);
}

} // verus!
