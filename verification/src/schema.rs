//! Which tables of the source are the user's.

use vstd::prelude::*;
use vstd::string::StrSliceExecFns;

verus! {

/// Whether a table name belongs to the engine itself. The engine keeps for
/// its own tables the names that begin with `sqlite_`, the letters in either
/// case. Every other name is a user's, `sqlitedata` and `sqlite` too.
pub open spec fn is_reserved(name: Seq<char>) -> bool {
    &&& name.len() >= 7
    &&& (name[0] == 's' || name[0] == 'S')
    &&& (name[1] == 'q' || name[1] == 'Q')
    &&& (name[2] == 'l' || name[2] == 'L')
    &&& (name[3] == 'i' || name[3] == 'I')
    &&& (name[4] == 't' || name[4] == 'T')
    &&& (name[5] == 'e' || name[5] == 'E')
    &&& name[6] == '_'
}

/// The user's tables among `names`: the names that are not reserved, each as
/// often as it is listed, in the order in which they were listed.
pub open spec fn user_tables(names: Seq<Seq<char>>) -> Seq<Seq<char>>
    decreases names.len(),
{
    if names.len() == 0 {
        Seq::empty()
    } else if is_reserved(names.last()) {
        user_tables(names.drop_last())
    } else {
        user_tables(names.drop_last()).push(names.last())
    }
}

/// A catalog listing with one more name: the name is added to the user's
/// tables unless it is reserved.
pub proof fn lemma_user_tables_push(names: Seq<Seq<char>>, name: Seq<char>)
    ensures
        user_tables(names.push(name)) == if is_reserved(name) {
            user_tables(names)
        } else {
            user_tables(names).push(name)
        },
{
    assert(names.push(name).drop_last() =~= names);
}

/// The user's tables are the listing with the reserved names filtered out.
pub proof fn lemma_user_tables_filter(names: Seq<Seq<char>>)
    ensures
        user_tables(names) == names.filter(|name: Seq<char>| !is_reserved(name)),
    decreases names.len(),
{
    reveal(Seq::filter);
    if names.len() > 0 {
        lemma_user_tables_filter(names.drop_last());
    }
}

/// No user table is missing and no reserved name is present: a name is
/// among the user's tables exactly if it is listed and not reserved.
pub proof fn lemma_user_tables_members(names: Seq<Seq<char>>, name: Seq<char>)
    ensures
        user_tables(names).contains(name) <==> names.contains(name) && !is_reserved(name),
    decreases names.len(),
{
    if names.len() > 0 {
        let shorter = names.drop_last();
        let last = names.last();
        assert(names =~= shorter.push(last));
        lemma_user_tables_push(shorter, last);
        lemma_user_tables_members(shorter, name);
        let kept = user_tables(shorter);
        if names.contains(name) && name != last {
            let i = choose|i: int| 0 <= i < names.len() && names[i] == name;
            assert(shorter[i] == name);
        }
        if shorter.contains(name) {
            let i = choose|i: int| 0 <= i < shorter.len() && shorter[i] == name;
            assert(names[i] == name);
        }
        if !is_reserved(last) {
            let more = kept.push(last);
            assert(more[kept.len() as int] == last);
            if kept.contains(name) {
                let i = choose|i: int| 0 <= i < kept.len() && kept[i] == name;
                assert(more[i] == name);
            }
            if more.contains(name) && name != last {
                let i = choose|i: int| 0 <= i < more.len() && more[i] == name;
                assert(kept[i] == name);
            }
        }
        assert(names[names.len() - 1] == last);
    }
}

/// The characters of each name of a list.
pub open spec fn names_of(tables: Seq<String>) -> Seq<Seq<char>> {
    tables.map_values(|t: String| t@)
}

/// Tells whether a table name is reserved by the engine.
pub fn is_system_table(name: &str) -> (out: bool)
    ensures
        out == is_reserved(name@),
{
    if name.unicode_len() < 7 {
        return false;
    }
    let c0 = name.get_char(0);
    let c1 = name.get_char(1);
    let c2 = name.get_char(2);
    let c3 = name.get_char(3);
    let c4 = name.get_char(4);
    let c5 = name.get_char(5);
    let c6 = name.get_char(6);
    (c0 == 's' || c0 == 'S') && (c1 == 'q' || c1 == 'Q') && (c2 == 'l' || c2 == 'L') && (c3 == 'i'
        || c3 == 'I') && (c4 == 't' || c4 == 'T') && (c5 == 'e' || c5 == 'E') && c6 == '_'
}

/// Keeps the user's tables of a catalog listing, in their order, and leaves
/// out the engine's own.
pub fn get_tables(listed: Vec<String>) -> (tables: Vec<String>)
    ensures
        names_of(tables@) == user_tables(names_of(listed@)),
{
    let mut tables: Vec<String> = Vec::new();
    let mut i: usize = 0;
    assert(names_of(listed@).take(0) =~= Seq::<Seq<char>>::empty());
    assert(names_of(tables@) =~= Seq::<Seq<char>>::empty());
    while i < listed.len()
        invariant
            i <= listed.len(),
            names_of(tables@) == user_tables(names_of(listed@).take(i as int)),
        decreases listed.len() - i,
    {
        let ghost before = names_of(tables@);
        proof {
            let so_far = names_of(listed@).take(i as int);
            assert(names_of(listed@).take(i + 1) =~= so_far.push(listed@[i as int]@));
            lemma_user_tables_push(so_far, listed@[i as int]@);
        }
        if !is_system_table(listed[i].as_str()) {
            tables.push(listed[i].clone());
            assert(names_of(tables@) =~= before.push(listed@[i as int]@));
        }
        i = i + 1;
    }
    assert(names_of(listed@).take(i as int) =~= names_of(listed@));
    tables
}

} // verus!
