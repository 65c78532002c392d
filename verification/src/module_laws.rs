//! Where imports lead.

use crate::diagnostic::fix::is_embedded;
use crate::module_resolver::{
    embedded_key, embedded_path, import_kind_of, module_key, relative_steps, steps_of, without_dots,
    ImportKind,
};
use crate::paths::joined_parts;
use crate::table::{entry_at, joined, Entry};
use vstd::prelude::*;

verus! {

/// An import with dots and a slash in front is relative, one with a slash in
/// front absolute, and any other goes through the project.
pub proof fn imports_start_from_their_front(rest: Seq<char>)
    ensures
        import_kind_of("./"@ + rest) == ImportKind::Relative,
        import_kind_of("../"@ + rest) == ImportKind::Relative,
        import_kind_of("/"@ + rest) == ImportKind::Absolute,
        rest.len() > 0 && rest[0] != '.' && rest[0] != '/' ==> import_kind_of(rest)
            == ImportKind::Project,
{
    reveal_strlit("./");
    reveal_strlit("../");
    reveal_strlit("/");
    assert("./"@.is_prefix_of("./"@ + rest));
    assert("../"@.is_prefix_of("../"@ + rest));
    assert("/"@.is_prefix_of("/"@ + rest));
    assert("./"@[0] == '.' && "../"@[0] == '.' && "/"@[0] == '/');
    assert(("/"@ + rest)[0] == '/');
}

/// Steps into directories and files, one for each name.
pub open spec fn into_each(names: Seq<Seq<char>>) -> Seq<Option<Seq<char>>> {
    Seq::new(names.len(), |i: int| Some(names[i]))
}

proof fn names_are_entered(names: Seq<Seq<char>>, n: int)
    requires
        0 <= n <= names.len(),
        forall|k: int|
            0 <= k < names.len() ==> (#[trigger] names[k]).len() > 0 && names[k] != ".."@,
    ensures
        steps_of(names, n) == into_each(names).take(n),
    decreases n,
{
    if n > 0 {
        names_are_entered(names, n - 1);
        assert(names[n - 1].len() > 0);
        assert(into_each(names).take(n - 1).push(Some(names[n - 1])) =~= into_each(names).take(n));
    } else {
        assert(into_each(names).take(0) =~= seq![]);
    }
}

proof fn joined_front(names: Seq<Seq<char>>)
    requires
        names.len() > 0,
        forall|k: int| 0 <= k < names.len() ==> (#[trigger] names[k]).len() > 0,
    ensures
        joined(names, "/"@).len() > 0,
        joined(names, "/"@)[0] == names[0][0],
    decreases names.len(),
{
    if names.len() > 1 {
        assert(names.drop_last()[0] == names[0]);
        assert forall|k: int| 0 <= k < names.drop_last().len() implies (
        #[trigger] names.drop_last()[k]).len() > 0 by {
            assert(names[k].len() > 0);
        }
        joined_front(names.drop_last());
    } else {
        assert(names[0].len() > 0);
    }
}

/// A relative import goes into each directory that it names, in their order,
/// and to the file that it names last.
pub proof fn relative_import_goes_by_its_names(names: Seq<Seq<char>>)
    requires
        names.len() > 0,
        forall|k: int|
            0 <= k < names.len() ==> (#[trigger] names[k]).len() > 0 && names[k] != ".."@
                && !names[k].contains('/'),
        names[0][0] != '.',
    ensures
        relative_steps("./"@ + joined(names, "/"@)) == into_each(names),
{
    let rest = joined(names, "/"@);
    let module = "./"@ + rest;
    reveal_strlit("./");
    joined_front(names);
    assert(module[0] == '.' && module[1] == '/');
    assert(module.skip(2) =~= rest);
    reveal_with_fuel(without_dots, 2);
    assert(without_dots(module) == rest);
    joined_parts(names);
    names_are_entered(names, names.len() as int);
    assert(into_each(names).take(names.len() as int) =~= into_each(names));
}

/// Two dots in front of a relative import lead to the directory above.
pub proof fn two_dots_go_up(names: Seq<Seq<char>>)
    requires
        names.len() > 0,
        forall|k: int|
            0 <= k < names.len() ==> (#[trigger] names[k]).len() > 0 && names[k] != ".."@
                && !names[k].contains('/'),
    ensures
        relative_steps(joined(seq![".."@] + names, "/"@)) == seq![Option::<Seq<char>>::None]
            + into_each(names),
{
    let all = seq![".."@] + names;
    reveal_strlit("..");
    assert forall|k: int| 0 <= k < all.len() implies (#[trigger] all[k]).len() > 0
        && !all[k].contains('/') by {
        if k > 0 {
            assert(all[k] == names[k - 1]);
        }
    }
    let module = joined(all, "/"@);
    starts_with_two_dots(all);
    assert(without_dots(module) == module);
    joined_parts(all);
    above_then_names(names, all.len() as int);
    assert((seq![Option::<Seq<char>>::None] + into_each(names)).take(all.len() as int)
        =~= seq![Option::<Seq<char>>::None] + into_each(names));
}

proof fn starts_with_two_dots(all: Seq<Seq<char>>)
    requires
        all.len() > 0,
        all[0] == ".."@,
    ensures
        joined(all, "/"@).len() >= 2,
        joined(all, "/"@)[1] == '.',
    decreases all.len(),
{
    reveal_strlit("..");
    if all.len() > 1 {
        assert(all.drop_last()[0] == all[0]);
        starts_with_two_dots(all.drop_last());
    }
}

proof fn above_then_names(names: Seq<Seq<char>>, n: int)
    requires
        1 <= n <= names.len() + 1,
        forall|k: int|
            0 <= k < names.len() ==> (#[trigger] names[k]).len() > 0 && names[k] != ".."@,
    ensures
        steps_of(seq![".."@] + names, n) == (seq![Option::<Seq<char>>::None] + into_each(
            names,
        )).take(n),
    decreases n,
{
    let all = seq![".."@] + names;
    let steps = seq![Option::<Seq<char>>::None] + into_each(names);
    reveal_with_fuel(steps_of, 2);
    if n == 1 {
        assert(all[0] == ".."@);
        assert(steps.take(1) =~= Seq::<Option<Seq<char>>>::empty().push(None));
    } else {
        above_then_names(names, n - 1);
        assert(all[n - 1] == names[n - 2]);
        assert(names[n - 2].len() > 0);
        assert(steps.take(n - 1).push(Some(names[n - 2])) =~= steps.take(n));
    }
}

/// A built-in module is found under its own name, and behind `std.` where no
/// module has that whole name.
pub proof fn builtin_modules_have_two_names(sources: Seq<Entry<String>>, name: Seq<char>)
    requires
        entry_at(sources, name) is Some,
    ensures
        embedded_key(sources, name) == Some(name),
        module_key(sources, name) == name,
        entry_at(sources, "std."@ + name) is None ==> embedded_key(sources, "std."@ + name) == Some(
            name,
        ) && module_key(sources, "std."@ + name) == name,
{
    let long = "std."@ + name;
    assert("std."@.is_prefix_of(long));
    assert(long.skip("std."@.len() as int) =~= name);
}

/// A module that is not built in keeps its name.
pub proof fn other_modules_keep_their_name(sources: Seq<Entry<String>>, name: Seq<char>)
    requires
        forall|i: int|
            0 <= i < sources.len() ==> (#[trigger] sources[i]).key@ != name && "std."@
                + sources[i].key@ != name,
    ensures
        embedded_key(sources, name) is None,
        module_key(sources, name) == name,
{
    absent(sources, name);
    if "std."@.is_prefix_of(name) {
        let short = name.skip("std."@.len() as int);
        assert("std."@ + short =~= name);
        assert forall|i: int| 0 <= i < sources.len() implies (#[trigger] sources[i]).key@
            != short by {
            assert("std."@ + sources[i].key@ != name);
        }
        absent(sources, short);
    }
}

proof fn absent(sources: Seq<Entry<String>>, key: Seq<char>)
    requires
        forall|i: int| 0 <= i < sources.len() ==> (#[trigger] sources[i]).key@ != key,
    ensures
        entry_at(sources, key) is None,
    decreases sources.len(),
{
    if sources.len() > 0 {
        assert(sources[0].key@ != key);
        let rest = sources.drop_first();
        assert forall|i: int| 0 <= i < rest.len() implies (#[trigger] rest[i]).key@ != key by {
            assert(rest[i] == sources[i + 1]);
        }
        absent(rest, key);
    }
}

/// The path of a built-in module is one that no edit may touch. It ends with
/// the extension and has a slash for each dot of the name, and nothing else of
/// the name is changed.
pub proof fn builtin_paths_follow_the_name(key: Seq<char>, i: int)
    requires
        0 <= i < key.len(),
    ensures
        is_embedded(embedded_path(key)),
        embedded_path(key).len() == "<embedded>/"@.len() + key.len() + ".mux"@.len(),
        embedded_path(key).skip("<embedded>/"@.len() + key.len() as int) == ".mux"@,
        key[i] == '.' ==> embedded_path(key)["<embedded>/"@.len() + i] == '/',
        key[i] != '.' ==> embedded_path(key)["<embedded>/"@.len() + i] == key[i],
{
    assert("<embedded>/"@.is_prefix_of(embedded_path(key)));
    assert(embedded_path(key).skip("<embedded>/"@.len() + key.len() as int) =~= ".mux"@);
}

} // verus!
