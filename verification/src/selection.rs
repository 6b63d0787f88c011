//! The options that a user has selected so far.
use crate::text::{same_text, texts};
use vstd::prelude::*;

verus! {

/// `list` without `item`.
pub open spec fn without(list: Seq<Seq<char>>, item: Seq<char>) -> Seq<Seq<char>> {
    list.filter(|x: Seq<char>| x != item)
}

/// What is selected once `option` has been toggled: it leaves where it is there, and joins at the
/// end where it is not.
pub open spec fn toggled(selected: Seq<Seq<char>>, option: Seq<char>) -> Seq<Seq<char>> {
    if selected.contains(option) {
        without(selected, option)
    } else {
        selected.push(option)
    }
}

/// Whether only options that are on offer are selected, and none of them twice.
pub open spec fn selection_wf(options: Seq<Seq<char>>, selected: Seq<Seq<char>>) -> bool {
    &&& selected.no_duplicates()
    &&& forall|i: int| 0 <= i < selected.len() ==> options.contains(#[trigger] selected[i])
}

/// What `without` keeps.
pub proof fn lemma_without(list: Seq<Seq<char>>, item: Seq<char>)
    ensures
        forall|x: Seq<char>|
            #[trigger] without(list, item).contains(x) <==> list.contains(x) && x != item,
        list.no_duplicates() ==> without(list, item).no_duplicates(),
    decreases list.len(),
{
    let keep = |x: Seq<char>| x != item;
    reveal(Seq::filter);
    if list.len() > 0 {
        let init = list.drop_last();
        lemma_without(init, item);
        let kept = without(init, item);
        assert(without(list, item) == if keep(list.last()) {
            kept.push(list.last())
        } else {
            kept
        });
        assert forall|x: Seq<char>| #[trigger] without(list, item).contains(x) <==> list.contains(x)
            && x != item by {
            if list.contains(x) && x != item {
                let i = choose|i: int| 0 <= i < list.len() && list[i] == x;
                if i < init.len() {
                    assert(init[i] == x);
                    assert(init.contains(x));
                    assert(kept.contains(x));
                    let j = choose|j: int| 0 <= j < kept.len() && kept[j] == x;
                    assert(without(list, item)[j] == x);
                } else {
                    assert(without(list, item).last() == x);
                }
            }
            if without(list, item).contains(x) {
                let j = choose|j: int|
                    0 <= j < without(list, item).len() && without(list, item)[j] == x;
                if j < kept.len() {
                    assert(kept[j] == x);
                    assert(kept.contains(x));
                    assert(init.contains(x));
                    let i = choose|i: int| 0 <= i < init.len() && init[i] == x;
                    assert(list[i] == x);
                } else {
                    assert(list.last() == x);
                }
            }
        }
        if list.no_duplicates() {
            assert(init.no_duplicates());
            if keep(list.last()) {
                assert(!init.contains(list.last()));
                assert(!kept.contains(list.last()));
            }
        }
    }
}

/// Toggling an option that is on offer keeps a selection well-formed.
pub proof fn toggle_keeps_selection(
    options: Seq<Seq<char>>,
    selected: Seq<Seq<char>>,
    option: Seq<char>,
)
    requires
        selection_wf(options, selected),
        options.contains(option),
    ensures
        selection_wf(options, toggled(selected, option)),
{
    lemma_without(selected, option);
    let after = toggled(selected, option);
    assert forall|i: int| 0 <= i < after.len() implies options.contains(#[trigger] after[i]) by {
        if selected.contains(option) {
            assert(after.contains(after[i]));
            let j = choose|j: int| 0 <= j < selected.len() && selected[j] == after[i];
            assert(options.contains(selected[j]));
        } else if i < selected.len() {
            assert(options.contains(selected[i]));
        }
    }
}

/// Toggling changes whether the toggled option is selected, and nothing else.
pub proof fn toggle_flips_one(selected: Seq<Seq<char>>, option: Seq<char>, other: Seq<char>)
    ensures
        toggled(selected, option).contains(other) == if other == option {
            !selected.contains(option)
        } else {
            selected.contains(other)
        },
{
    lemma_without(selected, option);
    if !selected.contains(option) {
        let after = selected.push(option);
        assert(after.last() == option);
        if selected.contains(other) {
            let i = choose|i: int| 0 <= i < selected.len() && selected[i] == other;
            assert(after[i] == other);
        }
        if after.contains(other) && other != option {
            let i = choose|i: int| 0 <= i < after.len() && after[i] == other;
            assert(selected[i] == other);
        }
    }
}

/// Toggling an option twice leaves the same options selected.
pub proof fn toggle_twice(selected: Seq<Seq<char>>, option: Seq<char>)
    ensures
        toggled(toggled(selected, option), option).to_set() == selected.to_set(),
{
    let once = toggled(selected, option);
    let twice = toggled(once, option);
    assert forall|x: Seq<char>| twice.contains(x) == selected.contains(x) by {
        toggle_flips_one(selected, option, x);
        toggle_flips_one(selected, option, option);
        toggle_flips_one(once, option, x);
    }
    assert(twice.to_set() =~= selected.to_set());
}

/// Toggles `option` and tells whether it is selected now.
pub fn toggle_option(selected: &mut Vec<String>, option: &str) -> (now_selected: bool)
    ensures
        texts(final(selected)@) == toggled(texts(old(selected)@), option@),
        now_selected == !texts(old(selected)@).contains(option@),
{
    let ghost all = texts(selected@);
    let ghost keep = |x: Seq<char>| x != option@;
    let mut kept: Vec<String> = Vec::new();
    let mut found: bool = false;
    let mut i: usize = 0;
    while i < selected.len()
        invariant
            i <= selected@.len(),
            all == texts(selected@),
            *selected == *old(selected),
            keep == (|x: Seq<char>| x != option@),
            texts(kept@) == all.take(i as int).filter(keep),
            found == all.take(i as int).contains(option@),
        decreases selected@.len() - i,
    {
        let ghost before = kept@;
        let ghost head = all.take(i as int);
        let ghost next = all.take(i + 1);
        let item = selected[i].clone();
        proof {
            reveal(Seq::filter);
            assert(next.drop_last() == head);
            assert(next.last() == item@);
            assert(next == head.push(item@));
        }
        if same_text(item.as_str(), option) {
            proof {
                assert(next[i as int] == option@);
            }
            found = true;
        } else {
            kept.push(item);
            proof {
                assert(texts(kept@) == texts(before).push(item@));
                if head.contains(option@) {
                    let j = choose|j: int| 0 <= j < head.len() && head[j] == option@;
                    assert(next[j] == option@);
                }
                if next.contains(option@) {
                    let j = choose|j: int| 0 <= j < next.len() && next[j] == option@;
                    assert(head[j] == option@);
                }
            }
        }
        i += 1;
    }
    assert(all.take(i as int) == all);
    if found {
        *selected = kept;
        false
    } else {
        let ghost before = selected@;
        selected.push(option.to_owned());
        assert(texts(selected@) == texts(before).push(option@));
        true
    }
}

} // verus!
