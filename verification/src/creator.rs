//! The keys that start the making of a filter, and what each one makes.
use vstd::prelude::*;

verus! {

/// A way of making a filter, started by one key.
#[derive(Clone, Copy, Debug, PartialEq, Eq, Structural)]
pub enum FilterCreator {
    /// Asks for a first and a last line.
    Lines,
    /// Asks for the text that lines must contain.
    Containing,
    /// Shows a notification and makes no filter.
    TestInsert,
    /// Shows the filters made so far and makes no filter.
    ShowFilterList,
}

/// The key of each creator, in the order the keys are bound.
pub open spec fn creator_table() -> Seq<(Seq<char>, FilterCreator)> {
    seq![
        (seq!['l'], FilterCreator::Lines),
        (seq!['c'], FilterCreator::Containing),
        (seq!['i'], FilterCreator::TestInsert),
        (seq!['p'], FilterCreator::ShowFilterList),
    ]
}

/// The pairs of key and creator that are bound while the plugin is active.
pub fn filter_creator_mappings() -> (table: Vec<(String, FilterCreator)>)
    ensures
        table@.map_values(|e: (String, FilterCreator)| (e.0@, e.1)) == creator_table(),
{
    proof {
        reveal_strlit("l");
        reveal_strlit("c");
        reveal_strlit("i");
        reveal_strlit("p");
    }
    let l = String::from_str("l");
    let c = String::from_str("c");
    let i = String::from_str("i");
    let p = String::from_str("p");
    assert(l@ =~= seq!['l']);
    assert(c@ =~= seq!['c']);
    assert(i@ =~= seq!['i']);
    assert(p@ =~= seq!['p']);
    let table = vec![
        (l, FilterCreator::Lines),
        (c, FilterCreator::Containing),
        (i, FilterCreator::TestInsert),
        (p, FilterCreator::ShowFilterList),
    ];
    assert(table@.map_values(|e: (String, FilterCreator)| (e.0@, e.1)) =~= creator_table());
    table
}

/// Law: each key is bound to one creator, and each creator has a key.
pub proof fn lemma_creator_table_is_a_map(i: int, j: int, c: FilterCreator)
    requires
        0 <= i < creator_table().len(),
        0 <= j < creator_table().len(),
    ensures
        creator_table()[i].0 == creator_table()[j].0 ==> i == j,
        exists|k: int| 0 <= k < creator_table().len() && #[trigger] creator_table()[k].1 == c,
{
    let t = creator_table();
    if t[i].0 == t[j].0 && i != j {
        assert(t[i].0[0] == t[j].0[0]);
    }
    match c {
        FilterCreator::Lines => assert(t[0].1 == c),
        FilterCreator::Containing => assert(t[1].1 == c),
        FilterCreator::TestInsert => assert(t[2].1 == c),
        FilterCreator::ShowFilterList => assert(t[3].1 == c),
    }
}

} // verus!
