//! Choosing which examples to run: by a filter expression, or from what an
//! operator picked in a list.
//!
//! Either way the result is a list of positions in the list of discovered
//! examples: in range, strictly increasing, so in discovery order and
//! without repeats.

use vstd::prelude::*;
use crate::model::{example_names, names_of, texts, ExampleSpec};
use crate::text::{
    blank, chars_of, contains_chars, lemma_split_append, lemma_split_single, lemma_trim_padded, split,
    split_and_trim, split_trimmed, tight, trim, views,
};

verus! {

/// What `str::to_lowercase` returns for a string with these characters.
pub uninterp spec fn lowercase_of(s: Seq<char>) -> Seq<char>;

/// `str::to_lowercase` of the standard library. Its result is a function
/// of the characters alone; the contract gives it the name `lowercase_of`
/// and claims nothing else of it.
#[verifier::external_body]
fn lowercase(s: &str) -> (r: String)
    ensures
        r@ == lowercase_of(s@),
{
    s.to_lowercase()
}

/// The positions below `n` that are wanted, in increasing order.
pub open spec fn indices_where(n: nat, wanted: spec_fn(int) -> bool) -> Seq<int>
    decreases n,
{
    if n == 0 {
        Seq::empty()
    } else {
        let before = indices_where((n - 1) as nat, wanted);
        if wanted(n - 1) {
            before.push(n - 1)
        } else {
            before
        }
    }
}

/// The positions that a vector of `usize` holds.
pub open spec fn as_ints(picked: Seq<usize>) -> Seq<int> {
    picked.map_values(|i: usize| i as int)
}

/// The word that selects every example.
pub open spec fn all_keyword() -> Seq<char> {
    seq!['a', 'l', 'l']
}

/// The names a filter asks for: its comma-separated pieces, trimmed.
pub open spec fn requested_names(filter: Seq<char>) -> Seq<Seq<char>> {
    split_trimmed(filter, ',')
}

/// The positions of the examples whose name is one of `requested`.
pub open spec fn named_positions(names: Seq<Seq<char>>, requested: Seq<Seq<char>>) -> Seq<int> {
    indices_where(names.len(), |i: int| requested.contains(names[i]))
}

/// Every position below `n`.
pub open spec fn all_positions(n: nat) -> Seq<int> {
    indices_where(n, |i: int| true)
}

/// The positions below `n` that occur in `picked`.
pub open spec fn picked_positions(n: nat, picked: Seq<usize>) -> Seq<int> {
    indices_where(n, |i: int| as_ints(picked).contains(i))
}

/// What a filter selects among examples with these names, given the
/// lower-case form of the filter: every position if that form is the word
/// `all`, else the positions of the requested names; `None` if no name
/// matches.
pub open spec fn filter_selection(
    names: Seq<Seq<char>>,
    filter: Seq<char>,
    lowered: Seq<char>,
) -> Option<Seq<int>> {
    if lowered == all_keyword() {
        Some(all_positions(names.len()))
    } else {
        let found = named_positions(names, requested_names(filter));
        if found.len() == 0 {
            None
        } else {
            Some(found)
        }
    }
}

/// No example has one of the requested names.
#[derive(Debug, Clone)]
pub struct NoMatchError {
    /// The filter as it was given.
    pub requested: String,
    /// The names of all discovered examples, in discovery order.
    pub available: Vec<String>,
}

/// Why an interactive session ends without running anything.
#[derive(Debug, Clone, Copy, PartialEq, Eq, Structural)]
pub enum Farewell {
    /// The operator declined to select examples.
    Declined,
    /// The operator confirmed an empty selection.
    NothingSelected,
}

/// The positions in `indices_where(n, wanted)` are exactly the wanted
/// positions below `n`, each once, in increasing order.
pub proof fn lemma_indices_where(n: nat, wanted: spec_fn(int) -> bool)
    ensures
        indices_where(n, wanted).len() <= n,
        forall|k: int|
            0 <= k < indices_where(n, wanted).len() ==> 0 <= (#[trigger] indices_where(
                n,
                wanted,
            )[k]) < n && wanted(indices_where(n, wanted)[k]),
        forall|j: int, k: int|
            0 <= j < k < indices_where(n, wanted).len() ==> indices_where(n, wanted)[j]
                < indices_where(n, wanted)[k],
        forall|i: int| 0 <= i < n && wanted(i) ==> indices_where(n, wanted).contains(i),
    decreases n,
{
    if n > 0 {
        let before = indices_where((n - 1) as nat, wanted);
        lemma_indices_where((n - 1) as nat, wanted);
        let now = indices_where(n, wanted);
        assert forall|i: int| 0 <= i < n && wanted(i) implies now.contains(i) by {
            if i < n - 1 {
                assert(before.contains(i));
                let k = before.index_of(i);
                assert(now[k] == i);
            } else {
                assert(now[now.len() - 1] == i);
            }
        }
    }
}

/// Where every position is wanted, the positions are `0, 1, .., n - 1`.
pub proof fn lemma_all_positions(n: nat)
    ensures
        all_positions(n) == Seq::new(n, |i: int| i),
    decreases n,
{
    if n > 0 {
        lemma_all_positions((n - 1) as nat);
        assert(all_positions(n) =~= Seq::new(n, |i: int| i));
    } else {
        assert(all_positions(n) =~= Seq::new(n, |i: int| i));
    }
}

/// The filter `all` selects every example, in discovery order: as many
/// positions as there are examples, counting up from zero.
pub proof fn lemma_all_selects_everything(names: Seq<Seq<char>>, filter: Seq<char>)
    ensures
        filter_selection(names, filter, all_keyword()) == Some(
            Seq::new(names.len(), |i: int| i),
        ),
{
    lemma_all_positions(names.len());
}

/// Which examples are selected depends on which names are requested,
/// not on the order in which they are requested nor on how often.
pub proof fn lemma_request_order_irrelevant(
    names: Seq<Seq<char>>,
    first: Seq<Seq<char>>,
    second: Seq<Seq<char>>,
)
    requires
        forall|name: Seq<char>| first.contains(name) <==> second.contains(name),
    ensures
        named_positions(names, first) == named_positions(names, second),
{
    lemma_indices_where_agree(
        names.len(),
        |i: int| first.contains(names[i]),
        |i: int| second.contains(names[i]),
    );
}

proof fn lemma_indices_where_agree(
    n: nat,
    first: spec_fn(int) -> bool,
    second: spec_fn(int) -> bool,
)
    requires
        forall|i: int| 0 <= i < n ==> #[trigger] first(i) == second(i),
    ensures
        indices_where(n, first) == indices_where(n, second),
    decreases n,
{
    if n > 0 {
        lemma_indices_where_agree((n - 1) as nat, first, second);
    }
}

/// A name as it stands in a filter, with white space around it.
pub ghost struct Padded {
    pub before: Seq<char>,
    pub name: Seq<char>,
    pub after: Seq<char>,
}

/// A name that a filter can ask for, with padding that trimming takes
/// away: the padding is white space, the name holds no comma and neither
/// begins nor ends with white space, and the comma is no white space.
pub open spec fn well_padded(p: Padded) -> bool {
    &&& blank(p.before) && !p.before.contains(',')
    &&& blank(p.after) && !p.after.contains(',')
    &&& tight(p.name) && !p.name.contains(',')
}

/// The padded name as it is written in a filter.
pub open spec fn written(p: Padded) -> Seq<char> {
    p.before + p.name + p.after
}

/// The filter that lists the padded names, separated by commas.
pub open spec fn written_list(items: Seq<Padded>) -> Seq<char>
    decreases items.len(),
{
    if items.len() == 0 {
        Seq::empty()
    } else if items.len() == 1 {
        written(items[0])
    } else {
        written_list(items.drop_last()) + seq![','] + written(items.last())
    }
}

/// A filter that lists names, separated by commas and with any white
/// space around each name, requests exactly those names.
pub proof fn lemma_listed_names_are_requested(items: Seq<Padded>)
    requires
        items.len() > 0,
        forall|i: int| 0 <= i < items.len() ==> well_padded(#[trigger] items[i]),
    ensures
        requested_names(written_list(items)) == items.map_values(|p: Padded| p.name),
    decreases items.len(),
{
    let last = items.last();
    assert(well_padded(last));
    assert(!written(last).contains(',')) by {
        if written(last).contains(',') {
            let k = written(last).index_of(',');
            if k < last.before.len() {
                assert(last.before.contains(last.before[k]));
            } else if k < last.before.len() + last.name.len() {
                assert(last.name.contains(last.name[k - last.before.len()]));
            } else {
                assert(last.after.contains(
                    last.after[k - last.before.len() - last.name.len()],
                ));
            }
        }
    }
    lemma_trim_padded(last.before, last.name, last.after);
    if items.len() == 1 {
        lemma_split_single(written(last), ',');
        assert(requested_names(written_list(items)) =~= items.map_values(|p: Padded| p.name));
    } else {
        let front = items.drop_last();
        assert forall|i: int| 0 <= i < front.len() implies well_padded(#[trigger] front[i]) by {
            assert(front[i] == items[i]);
        }
        lemma_listed_names_are_requested(front);
        lemma_split_append(written_list(front), written(last), ',');
        let pieces = split(written_list(front), ',');
        assert(requested_names(written_list(front)) == pieces.map_values(
            |piece: Seq<char>| trim(piece),
        ));
        assert(requested_names(written_list(items)) =~= items.map_values(|p: Padded| p.name)) by {
            let all = pieces.push(written(last));
            assert forall|i: int| 0 <= i < all.len() implies trim(all[i]) == items[i].name by {
                if i < pieces.len() {
                    assert(requested_names(written_list(front))[i] == trim(pieces[i]));
                    assert(front[i] == items[i]);
                }
            }
        }
    }
}

/// A filter that asks for two names, in either order and with any white
/// space around them, selects exactly the examples that have one of the
/// two names, in discovery order; it fails exactly if no example has
/// either name.
pub proof fn lemma_two_names(
    names: Seq<Seq<char>>,
    one: Padded,
    other: Padded,
    lowered: Seq<char>,
    lowered_swapped: Seq<char>,
)
    requires
        well_padded(one),
        well_padded(other),
        lowered != all_keyword(),
        lowered_swapped != all_keyword(),
    ensures
        ({
            let filter = written_list(seq![one, other]);
            let swapped = written_list(seq![other, one]);
            let both = indices_where(
                names.len(),
                |i: int| names[i] == one.name || names[i] == other.name,
            );
            &&& filter_selection(names, filter, lowered) == filter_selection(
                names,
                swapped,
                lowered_swapped,
            )
            &&& filter_selection(names, filter, lowered) == (if both.len() == 0 {
                None
            } else {
                Some(both)
            })
            &&& both.len() == 0 <==> !names.contains(one.name) && !names.contains(other.name)
        }),
{
    let forward = seq![one, other];
    let backward = seq![other, one];
    lemma_listed_names_are_requested(forward);
    lemma_listed_names_are_requested(backward);
    let asked = seq![one.name, other.name];
    let asked_back = seq![other.name, one.name];
    assert(forward.map_values(|p: Padded| p.name) =~= asked);
    assert(backward.map_values(|p: Padded| p.name) =~= asked_back);
    let either = |i: int| names[i] == one.name || names[i] == other.name;
    assert forall|i: int| 0 <= i < names.len() implies asked.contains(names[i]) == either(i) by {
        if either(i) {
            assert(asked[0] == one.name && asked[1] == other.name);
        }
    }
    assert forall|i: int| 0 <= i < names.len() implies asked_back.contains(names[i]) == either(
        i,
    ) by {
        if either(i) {
            assert(asked_back[0] == other.name && asked_back[1] == one.name);
        }
    }
    lemma_indices_where_agree(names.len(), |i: int| asked.contains(names[i]), either);
    lemma_indices_where_agree(names.len(), |i: int| asked_back.contains(names[i]), either);
    lemma_indices_where(names.len(), either);
    let both = indices_where(names.len(), either);
    if both.len() > 0 {
        assert(either(both[0]));
        assert(names.contains(names[both[0]]));
    }
    if names.contains(one.name) {
        let i = names.index_of(one.name);
        assert(either(i));
        assert(both.contains(i));
    }
    if names.contains(other.name) {
        let i = names.index_of(other.name);
        assert(either(i));
        assert(both.contains(i));
    }
}

/// Every position below `n`, in order.
pub fn select_all(n: usize) -> (r: Vec<usize>)
    ensures
        as_ints(r@) == all_positions(n as nat),
        r.len() == n,
{
    let mut r: Vec<usize> = Vec::new();
    let mut i: usize = 0;
    assert(as_ints(r@) =~= all_positions(0));
    while i < n
        invariant
            i <= n,
            r.len() == i,
            as_ints(r@) == all_positions(i as nat),
        decreases n - i,
    {
        r.push(i);
        assert(as_ints(r@) =~= all_positions(i as nat).push(i as int));
        i += 1;
    }
    r
}

/// The positions of the examples whose name is one of `requested`, in
/// discovery order.
pub fn select_named(examples: &Vec<ExampleSpec>, requested: &Vec<Vec<char>>) -> (r: Vec<usize>)
    ensures
        as_ints(r@) == named_positions(names_of(examples@), views(requested@)),
{
    let ghost names = names_of(examples@);
    let ghost wanted = |i: int| views(requested@).contains(names[i]);
    let mut r: Vec<usize> = Vec::new();
    let mut i: usize = 0;
    assert(as_ints(r@) =~= indices_where(0, wanted));
    while i < examples.len()
        invariant
            i <= examples.len(),
            names == names_of(examples@),
            wanted == |i: int| views(requested@).contains(names[i]),
            as_ints(r@) == indices_where(i as nat, wanted),
        decreases examples.len() - i,
    {
        let name = chars_of(examples[i].name.as_str());
        assert(name@ == names[i as int]);
        if contains_chars(requested, &name) {
            r.push(i);
            assert(as_ints(r@) =~= indices_where(i as nat, wanted).push(i as int));
        }
        i += 1;
    }
    r
}

/// The positions below `count` that occur in `picked`, in increasing
/// order: what the operator ticked, in the order the list was shown.
pub fn select_picked(count: usize, picked: &Vec<usize>) -> (r: Vec<usize>)
    ensures
        as_ints(r@) == picked_positions(count as nat, picked@),
{
    let ghost wanted = |i: int| as_ints(picked@).contains(i);
    let mut r: Vec<usize> = Vec::new();
    let mut i: usize = 0;
    assert(as_ints(r@) =~= indices_where(0, wanted));
    while i < count
        invariant
            i <= count,
            wanted == |i: int| as_ints(picked@).contains(i),
            as_ints(r@) == indices_where(i as nat, wanted),
        decreases count - i,
    {
        let mut found = false;
        let mut k: usize = 0;
        while k < picked.len() && !found
            invariant
                k <= picked.len(),
                found ==> as_ints(picked@).contains(i as int),
                !found ==> forall|j: int| 0 <= j < k ==> as_ints(picked@)[j] != i,
            decreases picked.len() - k + (if found { 0int } else { 1int }),
        {
            if picked[k] == i {
                assert(as_ints(picked@)[k as int] == i);
                found = true;
            } else {
                k += 1;
            }
        }
        if found {
            r.push(i);
            assert(as_ints(r@) =~= indices_where(i as nat, wanted).push(i as int));
        }
        i += 1;
    }
    r
}

/// Whether `word` holds exactly the word `all`.
fn is_all_keyword(word: &str) -> (b: bool)
    ensures
        b == (word@ == all_keyword()),
{
    let chars = chars_of(word);
    if chars.len() != 3 {
        return false;
    }
    let b = chars[0] == 'a' && chars[1] == 'l' && chars[2] == 'l';
    assert(b == (chars@ =~= all_keyword()));
    b
}

/// Whether a filter asks for every example: its lower-case form is the
/// word `all`.
pub fn is_all_filter(filter: &str) -> (b: bool)
    ensures
        b == (lowercase_of(filter@) == all_keyword()),
{
    let lowered = lowercase(filter);
    is_all_keyword(lowered.as_str())
}

/// Selects by a filter whose lower-case form is `lowered`: every example
/// if that form is the word `all`, else the examples whose name is one of
/// the comma-separated, trimmed pieces of `filter`, in discovery order
/// whatever the order of the pieces. Fails, with the filter and all
/// available names, exactly if a name list matches no example.
pub fn select_lowered(examples: &Vec<ExampleSpec>, filter: &str, lowered: &str) -> (r: Result<
    Vec<usize>,
    NoMatchError,
>)
    ensures
        match r {
            Ok(picked) => filter_selection(names_of(examples@), filter@, lowered@) == Some(
                as_ints(picked@),
            ),
            Err(e) => filter_selection(names_of(examples@), filter@, lowered@) is None
                && e.requested@ == filter@ && texts(e.available@) == names_of(examples@),
        },
{
    if is_all_keyword(lowered) {
        Ok(select_all(examples.len()))
    } else {
        let requested = split_and_trim(filter, ',');
        let picked = select_named(examples, &requested);
        if picked.len() == 0 {
            Err(NoMatchError { requested: filter.to_owned(), available: example_names(examples) })
        } else {
            Ok(picked)
        }
    }
}

/// Selects by a filter expression: `all` in any letter case selects every
/// example, anything else is a comma-separated list of names.
pub fn select_by_filter(examples: &Vec<ExampleSpec>, filter: &str) -> (r: Result<
    Vec<usize>,
    NoMatchError,
>)
    ensures
        match r {
            Ok(picked) => filter_selection(names_of(examples@), filter@, lowercase_of(filter@))
                == Some(as_ints(picked@)),
            Err(e) => filter_selection(names_of(examples@), filter@, lowercase_of(filter@))
                is None && e.requested@ == filter@ && texts(e.available@) == names_of(examples@),
        },
{
    let lowered = lowercase(filter);
    select_lowered(examples, filter, lowered.as_str())
}

/// What follows the operator's answer to the question whether to select
/// examples: a refusal ends the session.
pub fn after_confirm(accepted: bool) -> (r: Option<Farewell>)
    ensures
        r == (if accepted {
            None
        } else {
            Some(Farewell::Declined)
        }),
{
    if accepted {
        None
    } else {
        Some(Farewell::Declined)
    }
}

/// What follows the operator's ticks in the list of `count` examples: the
/// ticked positions in the order of the list, or the end of the session
/// if none of them is ticked.
pub fn after_choice(count: usize, picked: &Vec<usize>) -> (r: Result<Vec<usize>, Farewell>)
    ensures
        match r {
            Ok(chosen) => as_ints(chosen@) == picked_positions(count as nat, picked@)
                && chosen.len() > 0,
            Err(f) => f == Farewell::NothingSelected && picked_positions(
                count as nat,
                picked@,
            ).len() == 0,
        },
{
    let chosen = select_picked(count, picked);
    if chosen.len() == 0 {
        Err(Farewell::NothingSelected)
    } else {
        Ok(chosen)
    }
}

} // verus!
