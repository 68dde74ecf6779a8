//! Sorting by a list of fields: earlier fields take priority, and components
//! that tie on every field keep their relative order.

use crate::component::{views, Component, ComponentView};
use crate::seqs::{lemma_filter_insert, lemma_filter_keeps_none};
use crate::text::{
    chars_of, compare, lemma_lex_order_flips, lemma_lex_order_tied_iff_equal,
    lemma_lex_order_transitive, lex_order, Precedence,
};
use vstd::prelude::*;

verus! {

/// Direction of a sort.
#[derive(Copy, Clone, Debug, PartialEq, Eq, Structural)]
pub enum Direction {
    Asc,
    Desc,
}

impl Default for Direction {
    fn default() -> (d: Self)
        ensures
            d == Direction::Asc,
    {
        Direction::Asc
    }
}

/// A field to sort by, and the direction to sort it in.
#[derive(Debug)]
pub struct SortField<T> {
    pub field: T,
    pub direction: Direction,
}

/// The fields by which components can be sorted.
#[derive(Copy, Clone, Debug, PartialEq, Eq, Structural)]
pub enum ComponentsSortFieldName {
    ComponentKey,
    ComponentKind,
}

/// Order of two integers.
pub open spec fn int_order(a: int, b: int) -> Precedence {
    if a < b {
        Precedence::Before
    } else if a > b {
        Precedence::After
    } else {
        Precedence::Tied
    }
}

/// Natural order of two components on one field: keys in lexicographic
/// order, kinds in their declaration order.
pub open spec fn field_order(
    a: ComponentView,
    b: ComponentView,
    field: ComponentsSortFieldName,
) -> Precedence {
    match field {
        ComponentsSortFieldName::ComponentKey => lex_order(a.key, b.key),
        ComponentsSortFieldName::ComponentKind => int_order(a.kind.rank(), b.kind.rank()),
    }
}

/// An outcome as it counts in the given direction: unchanged when ascending,
/// flipped when descending.
pub open spec fn directed(p: Precedence, direction: Direction) -> Precedence {
    match direction {
        Direction::Asc => p,
        Direction::Desc => p.flipped(),
    }
}

/// Order of two components under a list of sort fields: the outcome of the
/// first field on which they do not tie, in that field's direction; a tie if
/// there is no such field.
pub open spec fn chain_order(
    a: ComponentView,
    b: ComponentView,
    fields: Seq<SortField<ComponentsSortFieldName>>,
) -> Precedence
    decreases fields.len(),
{
    if fields.len() == 0 {
        Precedence::Tied
    } else {
        let earlier = chain_order(a, b, fields.drop_last());
        if earlier != Precedence::Tied {
            earlier
        } else {
            directed(field_order(a, b, fields.last().field), fields.last().direction)
        }
    }
}

/// No item of the sequence comes after a later one.
pub open spec fn is_ordered(
    s: Seq<ComponentView>,
    fields: Seq<SortField<ComponentsSortFieldName>>,
) -> bool {
    forall|i: int, j: int|
        0 <= i < j < s.len() ==> chain_order(#[trigger] s[i], #[trigger] s[j], fields)
            != Precedence::After
}

/// Where `x` goes into `s`: behind the last item that does not come after
/// it, so in front of the items at the end of `s` that all come after it.
pub open spec fn insert_index(
    s: Seq<ComponentView>,
    x: ComponentView,
    fields: Seq<SortField<ComponentsSortFieldName>>,
) -> int
    decreases s.len(),
{
    if s.len() == 0 {
        0
    } else if chain_order(s.last(), x, fields) == Precedence::After {
        insert_index(s.drop_last(), x, fields)
    } else {
        s.len() as int
    }
}

/// The sequence in sorted order: each item in turn is put behind the last
/// of the items sorted so far that does not come after it. Items that tie
/// keep their relative order.
pub open spec fn sorted_by(
    s: Seq<ComponentView>,
    fields: Seq<SortField<ComponentsSortFieldName>>,
) -> Seq<ComponentView>
    decreases s.len(),
{
    if s.len() == 0 {
        s
    } else {
        let rest = sorted_by(s.drop_last(), fields);
        rest.insert(insert_index(rest, s.last(), fields), s.last())
    }
}

/// The predicate "ties with `x`" on component values.
pub open spec fn ties_with(
    x: ComponentView,
    fields: Seq<SortField<ComponentsSortFieldName>>,
) -> spec_fn(ComponentView) -> bool {
    |y: ComponentView| chain_order(y, x, fields) == Precedence::Tied
}

/// Compares two components on one field.
pub fn compare_field(
    a: &Component,
    b: &Component,
    field: &ComponentsSortFieldName,
) -> (r: Precedence)
    ensures
        r == field_order(a@, b@, *field),
{
    match field {
        ComponentsSortFieldName::ComponentKey => {
            let ka = chars_of(a.get_component_key().id());
            let kb = chars_of(b.get_component_key().id());
            compare(&ka, &kb)
        },
        ComponentsSortFieldName::ComponentKind => {
            let ra = a.get_component_kind().position();
            let rb = b.get_component_kind().position();
            if ra < rb {
                Precedence::Before
            } else if ra > rb {
                Precedence::After
            } else {
                Precedence::Tied
            }
        },
    }
}

/// Compares two components under a list of sort fields.
pub fn compare_by_fields(
    a: &Component,
    b: &Component,
    sort_fields: &[SortField<ComponentsSortFieldName>],
) -> (r: Precedence)
    ensures
        r == chain_order(a@, b@, sort_fields@),
{
    let mut i: usize = 0;
    while i < sort_fields.len()
        invariant
            i <= sort_fields.len(),
            chain_order(a@, b@, sort_fields@.take(i as int)) == Precedence::Tied,
        decreases sort_fields.len() - i,
    {
        let natural = compare_field(a, b, &sort_fields[i].field);
        let outcome = match sort_fields[i].direction {
            Direction::Asc => natural,
            Direction::Desc => natural.flip(),
        };
        assert(sort_fields@.take(i + 1).drop_last() =~= sort_fields@.take(i as int));
        if outcome != Precedence::Tied {
            proof {
                lemma_chain_order_of_prefix(a@, b@, sort_fields@, i + 1);
            }
            return outcome;
        }
        i += 1;
    }
    assert(sort_fields@.take(i as int) =~= sort_fields@);
    Precedence::Tied
}

/// Once a prefix of the fields has decided the order, the later fields do
/// not change it.
pub proof fn lemma_chain_order_of_prefix(
    a: ComponentView,
    b: ComponentView,
    fields: Seq<SortField<ComponentsSortFieldName>>,
    n: int,
)
    requires
        0 <= n <= fields.len(),
        chain_order(a, b, fields.take(n)) != Precedence::Tied,
    ensures
        chain_order(a, b, fields) == chain_order(a, b, fields.take(n)),
    decreases fields.len() - n,
{
    if n == fields.len() {
        assert(fields.take(n) =~= fields);
    } else {
        assert(fields.take(n + 1).drop_last() =~= fields.take(n));
        lemma_chain_order_of_prefix(a, b, fields, n + 1);
    }
}

/// Swapping the two components flips their order on a field.
pub proof fn lemma_field_order_flips(
    a: ComponentView,
    b: ComponentView,
    field: ComponentsSortFieldName,
)
    ensures
        field_order(b, a, field) == field_order(a, b, field).flipped(),
{
    lemma_lex_order_flips(a.key, b.key);
}

/// Swapping the two components flips their order under a list of fields.
pub proof fn lemma_chain_order_flips(
    a: ComponentView,
    b: ComponentView,
    fields: Seq<SortField<ComponentsSortFieldName>>,
)
    ensures
        chain_order(b, a, fields) == chain_order(a, b, fields).flipped(),
    decreases fields.len(),
{
    if fields.len() > 0 {
        lemma_chain_order_flips(a, b, fields.drop_last());
        lemma_field_order_flips(a, b, fields.last().field);
    }
}

/// The order on one field is transitive, and two steps make a tie only if
/// both are ties.
pub proof fn lemma_field_order_transitive(
    a: ComponentView,
    b: ComponentView,
    c: ComponentView,
    field: ComponentsSortFieldName,
)
    requires
        field_order(a, b, field) != Precedence::After,
        field_order(b, c, field) != Precedence::After,
    ensures
        field_order(a, c, field) != Precedence::After,
        field_order(a, c, field) == Precedence::Tied <==> field_order(a, b, field)
            == Precedence::Tied && field_order(b, c, field) == Precedence::Tied,
{
    if field == ComponentsSortFieldName::ComponentKey {
        lemma_lex_order_transitive(a.key, b.key, c.key);
        lemma_lex_order_tied_iff_equal(a.key, b.key);
        lemma_lex_order_tied_iff_equal(b.key, c.key);
        lemma_lex_order_tied_iff_equal(a.key, c.key);
    }
}

/// The order under a list of fields is transitive, and two steps make a tie
/// only if both are ties.
pub proof fn lemma_chain_order_transitive(
    a: ComponentView,
    b: ComponentView,
    c: ComponentView,
    fields: Seq<SortField<ComponentsSortFieldName>>,
)
    requires
        chain_order(a, b, fields) != Precedence::After,
        chain_order(b, c, fields) != Precedence::After,
    ensures
        chain_order(a, c, fields) != Precedence::After,
        chain_order(a, c, fields) == Precedence::Tied <==> chain_order(a, b, fields)
            == Precedence::Tied && chain_order(b, c, fields) == Precedence::Tied,
    decreases fields.len(),
{
    if fields.len() > 0 {
        let init = fields.drop_last();
        let f = fields.last();
        lemma_chain_order_transitive(a, b, c, init);
        if chain_order(a, b, init) == Precedence::Tied && chain_order(b, c, init)
            == Precedence::Tied {
            match f.direction {
                Direction::Asc => {
                    lemma_field_order_transitive(a, b, c, f.field);
                },
                Direction::Desc => {
                    lemma_field_order_flips(a, b, f.field);
                    lemma_field_order_flips(b, c, f.field);
                    lemma_field_order_flips(a, c, f.field);
                    lemma_field_order_transitive(c, b, a, f.field);
                },
            }
        }
    }
}

/// Where [`insert_index`] points: every item from there on comes after `x`,
/// and the item just in front, if there is one, does not.
pub proof fn lemma_insert_index_splits(
    s: Seq<ComponentView>,
    x: ComponentView,
    fields: Seq<SortField<ComponentsSortFieldName>>,
)
    ensures
        0 <= insert_index(s, x, fields) <= s.len(),
        forall|k: int|
            insert_index(s, x, fields) <= k < s.len() ==> chain_order(#[trigger] s[k], x, fields)
                == Precedence::After,
        insert_index(s, x, fields) > 0 ==> chain_order(
            s[insert_index(s, x, fields) - 1],
            x,
            fields,
        ) != Precedence::After,
    decreases s.len(),
{
    if s.len() > 0 && chain_order(s.last(), x, fields) == Precedence::After {
        let init = s.drop_last();
        lemma_insert_index_splits(init, x, fields);
        assert forall|k: int| insert_index(s, x, fields) <= k < s.len() implies chain_order(
            #[trigger] s[k],
            x,
            fields,
        ) == Precedence::After by {
            if k < init.len() {
                assert(s[k] == init[k]);
            }
        }
    }
}

/// The position that splits `s` as [`insert_index`] does is
/// [`insert_index`].
pub proof fn lemma_insert_index_is(
    s: Seq<ComponentView>,
    x: ComponentView,
    fields: Seq<SortField<ComponentsSortFieldName>>,
    j: int,
)
    requires
        0 <= j <= s.len(),
        forall|k: int|
            j <= k < s.len() ==> chain_order(#[trigger] s[k], x, fields) == Precedence::After,
        j > 0 ==> chain_order(s[j - 1], x, fields) != Precedence::After,
    ensures
        insert_index(s, x, fields) == j,
    decreases s.len(),
{
    if j < s.len() {
        assert(chain_order(s[s.len() - 1], x, fields) == Precedence::After);
        lemma_insert_index_is(s.drop_last(), x, fields, j);
    }
}

/// Finds where `x` goes into the first `upto` items, which are sorted.
fn insertion_point(
    items: &Vec<Component>,
    upto: usize,
    x: &Component,
    sort_fields: &[SortField<ComponentsSortFieldName>],
) -> (j: usize)
    requires
        upto <= items.len(),
    ensures
        j == insert_index(views(items@).take(upto as int), x@, sort_fields@),
        j <= upto,
{
    let ghost sorted = views(items@).take(upto as int);
    let mut j: usize = upto;
    while j > 0
        invariant
            j <= upto <= items.len(),
            sorted == views(items@).take(upto as int),
            forall|k: int|
                j <= k < upto ==> chain_order(#[trigger] sorted[k], x@, sort_fields@)
                    == Precedence::After,
        decreases j,
    {
        let p = compare_by_fields(&items[j - 1], x, sort_fields);
        assert(sorted[j - 1] == items@[j - 1]@);
        if p != Precedence::After {
            proof {
                lemma_insert_index_is(sorted, x@, sort_fields@, j as int);
            }
            return j;
        }
        j -= 1;
    }
    proof {
        lemma_insert_index_is(sorted, x@, sort_fields@, 0);
    }
    0
}

/// Sorts the components in place by the given fields. The sort is stable:
/// components that tie on every field keep their relative order.
pub fn by_fields(items: &mut Vec<Component>, sort_fields: &[SortField<ComponentsSortFieldName>])
    ensures
        views(final(items)@) == sorted_by(views(old(items)@), sort_fields@),
{
    let ghost orig = views(items@);
    let n = items.len();
    let mut i: usize = 0;
    proof {
        assert(orig.take(0) =~= Seq::<ComponentView>::empty());
    }
    while i < n
        invariant
            i <= n,
            n == items.len(),
            n == orig.len(),
            views(items@).take(i as int) == sorted_by(orig.take(i as int), sort_fields@),
            views(items@).skip(i as int) == orig.skip(i as int),
        decreases n - i,
    {
        let ghost before = views(items@);
        let x = items.remove(i);
        assert(x@ == before[i as int]);
        assert(before[i as int] == before.skip(i as int)[0]);
        assert(views(items@) =~= before.remove(i as int));
        let ghost sorted = before.take(i as int);
        assert(views(items@).take(i as int) =~= sorted);
        let j = insertion_point(items, i, &x, sort_fields);
        let ghost x_view = x@;
        items.insert(j, x);
        proof {
            let after = views(items@);
            assert(after =~= before.remove(i as int).insert(j as int, x_view));
            assert(after.take(i + 1) =~= sorted.insert(j as int, x_view));
            assert(orig.take(i + 1).drop_last() =~= orig.take(i as int));
            assert(orig.take(i + 1).last() == orig.skip(i as int)[0]);
            assert(after.skip(i + 1) =~= before.skip(i as int).skip(1));
            assert(orig.skip(i + 1) =~= orig.skip(i as int).skip(1));
        }
        i += 1;
    }
    proof {
        assert(views(items@).take(n as int) =~= views(items@));
        assert(orig.take(n as int) =~= orig);
    }
}

/// Sorting rearranges: the result holds each item as often as the input
/// does.
pub proof fn lemma_sorted_by_is_permutation(
    s: Seq<ComponentView>,
    fields: Seq<SortField<ComponentsSortFieldName>>,
)
    ensures
        sorted_by(s, fields).to_multiset() == s.to_multiset(),
        sorted_by(s, fields).len() == s.len(),
    decreases s.len(),
{
    broadcast use vstd::seq_lib::group_to_multiset_ensures;

    if s.len() > 0 {
        let init = s.drop_last();
        let rest = sorted_by(init, fields);
        lemma_sorted_by_is_permutation(init, fields);
        lemma_insert_index_splits(rest, s.last(), fields);
        let j = insert_index(rest, s.last(), fields);
        let out = rest.insert(j, s.last());
        assert(out.remove(j) =~= rest);
        assert(out[j] == s.last());
        assert(out.to_multiset() =~= rest.to_multiset().insert(s.last()));
        assert(init.push(s.last()) =~= s);
    }
}

/// Sorting orders: in the result no item comes after a later one.
pub proof fn lemma_sorted_by_is_ordered(
    s: Seq<ComponentView>,
    fields: Seq<SortField<ComponentsSortFieldName>>,
)
    ensures
        is_ordered(sorted_by(s, fields), fields),
    decreases s.len(),
{
    if s.len() > 0 {
        let x = s.last();
        let rest = sorted_by(s.drop_last(), fields);
        lemma_sorted_by_is_ordered(s.drop_last(), fields);
        lemma_insert_index_splits(rest, x, fields);
        let j = insert_index(rest, x, fields);
        let out = rest.insert(j, x);
        assert forall|a: int, b: int| 0 <= a < b < out.len() implies chain_order(
            #[trigger] out[a],
            #[trigger] out[b],
            fields,
        ) != Precedence::After by {
            if b < j {
                assert(out[a] == rest[a] && out[b] == rest[b]);
            } else if b == j {
                assert(out[a] == rest[a]);
                if a < j - 1 {
                    assert(chain_order(rest[a], rest[j - 1], fields) != Precedence::After);
                    lemma_chain_order_transitive(rest[a], rest[j - 1], x, fields);
                }
            } else if a == j {
                assert(out[b] == rest[b - 1]);
                lemma_chain_order_flips(rest[b - 1], x, fields);
            } else if a < j {
                assert(out[a] == rest[a] && out[b] == rest[b - 1]);
            } else {
                assert(out[a] == rest[a - 1] && out[b] == rest[b - 1]);
            }
        }
    }
}

/// Sorting is stable: the items that tie with a given item stand in the
/// result in the order in which they stand in the input.
pub proof fn lemma_sorted_by_is_stable(
    s: Seq<ComponentView>,
    fields: Seq<SortField<ComponentsSortFieldName>>,
    x: ComponentView,
)
    ensures
        sorted_by(s, fields).filter(ties_with(x, fields)) == s.filter(ties_with(x, fields)),
    decreases s.len(),
{
    if s.len() > 0 {
        let y = s.last();
        let init = s.drop_last();
        let rest = sorted_by(init, fields);
        let tie = ties_with(x, fields);
        let none = Seq::<ComponentView>::empty();
        lemma_sorted_by_is_stable(init, fields, x);
        lemma_insert_index_splits(rest, y, fields);
        let j = insert_index(rest, y, fields);
        let front = rest.take(j).filter(tie);
        let back = rest.skip(j).filter(tie);
        lemma_filter_insert(rest, j, y, tie);
        assert(init.push(y) =~= s);
        init.lemma_filter_push(y, tie);
        if tie(y) {
            assert forall|k: int| 0 <= k < rest.skip(j).len() implies !tie(
                #[trigger] rest.skip(j)[k],
            ) by {
                let other = rest[j + k];
                assert(chain_order(other, y, fields) == Precedence::After);
                if tie(other) {
                    lemma_chain_order_flips(y, x, fields);
                    lemma_chain_order_transitive(other, x, y, fields);
                }
            }
            lemma_filter_keeps_none(rest.skip(j), tie);
            assert(back == none);
            assert(front + seq![y] + none =~= (front + none).push(y));
        } else {
            assert(front + none + back =~= front + back);
        }
    }
}

/// Sorting a sequence that is already in order changes nothing.
pub proof fn lemma_sorting_ordered_is_identity(
    s: Seq<ComponentView>,
    fields: Seq<SortField<ComponentsSortFieldName>>,
)
    requires
        is_ordered(s, fields),
    ensures
        sorted_by(s, fields) == s,
    decreases s.len(),
{
    if s.len() > 0 {
        let init = s.drop_last();
        assert forall|i: int, j: int| 0 <= i < j < init.len() implies chain_order(
            #[trigger] init[i],
            #[trigger] init[j],
            fields,
        ) != Precedence::After by {
            assert(init[i] == s[i] && init[j] == s[j]);
        }
        lemma_sorting_ordered_is_identity(init, fields);
        if init.len() > 0 {
            assert(init[init.len() - 1] == s[init.len() - 1]);
        }
        lemma_insert_index_is(init, s.last(), fields, init.len() as int);
        assert(init.insert(init.len() as int, s.last()) =~= s);
    }
}

/// Sorting twice by the same fields gives what sorting once gives.
pub proof fn lemma_sorted_by_is_idempotent(
    s: Seq<ComponentView>,
    fields: Seq<SortField<ComponentsSortFieldName>>,
)
    ensures
        sorted_by(sorted_by(s, fields), fields) == sorted_by(s, fields),
{
    lemma_sorted_by_is_ordered(s, fields);
    lemma_sorting_ordered_is_identity(sorted_by(s, fields), fields);
}

} // verus!
