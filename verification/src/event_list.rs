//! The events that the shown indicators lead to, in order and without repetition.

use crate::attempt::{ProcessAttempt, ReviewIndicators};
use crate::process_display::DISPLAYED_INDICATOR_LINKS;
use crate::process_indicators::{
    command_links_view, commands_view, links_view, CommandEventLink, CommandFacts, CommandLink,
    EventLink, IndicatorEventLink,
};
use crate::order::{
    lemma_text_irreflexive, lemma_text_total, lemma_text_transitive, text_before, text_comes_first,
};
use crate::text;
use vstd::prelude::*;

verus! {

/// The order of events: by segment, then session, then sequence.
pub open spec fn link_before(a: EventLink, b: EventLink) -> bool {
    if a.segment != b.segment {
        a.segment < b.segment
    } else if a.session_id != b.session_id {
        text_before(a.session_id, b.session_id)
    } else {
        a.sequence < b.sequence
    }
}

pub open spec fn ascending(links: Seq<EventLink>) -> bool {
    forall|i: int, j: int| 0 <= i < j < links.len() ==> link_before(#[trigger] links[i], #[trigger] links[j])
}

proof fn lemma_link_order(a: EventLink, b: EventLink, c: EventLink)
    ensures
        !link_before(a, a),
        link_before(a, b) && link_before(b, c) ==> link_before(a, c),
        a == b || link_before(a, b) || link_before(b, a),
{
    lemma_text_irreflexive(a.session_id);
    lemma_text_total(a.session_id, b.session_id);
    if text_before(a.session_id, b.session_id) && text_before(b.session_id, c.session_id) {
        lemma_text_transitive(a.session_id, b.session_id, c.session_id);
        lemma_text_irreflexive(c.session_id);
    }
    if text_before(a.session_id, b.session_id) && text_before(b.session_id, a.session_id) {
        lemma_text_transitive(a.session_id, b.session_id, a.session_id);
    }
}

fn comes_first(a: &IndicatorEventLink, b: &IndicatorEventLink) -> (r: bool)
    ensures
        r == link_before(a.view(), b.view()),
{
    if a.segment != b.segment {
        a.segment < b.segment
    } else if !text::str_eq(a.session_id.as_str(), b.session_id.as_str()) {
        text_comes_first(a.session_id.as_str(), b.session_id.as_str())
    } else {
        a.sequence < b.sequence
    }
}

/// Puts a link in its place, unless it is there.
fn place(list: &mut Vec<IndicatorEventLink>, link: &IndicatorEventLink)
    requires
        ascending(links_view(old(list)@)),
    ensures
        ascending(links_view(final(list)@)),
        forall|l: EventLink| #[trigger]
            links_view(final(list)@).contains(l) <==> links_view(old(list)@).contains(l) || l == link.view(),
{
    let ghost before = links_view(list@);
    let ghost x = link.view();
    let mut p: usize = 0;
    while p < list.len() && comes_first(&list[p], link)
        invariant
            p <= list@.len(),
            list == old(list),
            before == links_view(list@),
            x == link.view(),
            forall|i: int| 0 <= i < p ==> link_before(#[trigger] before[i], x),
        decreases list@.len() - p,
    {
        assert(before[p as int] == list@[p as int].view());
        p += 1;
    }
    if p < list.len() {
        assert(before[p as int] == list@[p as int].view());
        if list[p].same(link) {
            assert forall|l: EventLink| #[trigger] before.contains(l) <==> before.contains(l) || l == x by {
                assert(before.contains(before[p as int]));
            }
            return ;
        }
    }
    list.insert(p, link.copy());
    proof {
        let after = links_view(list@);
        assert(after =~= before.insert(p as int, x));
        assert forall|i: int, j: int| 0 <= i < j < after.len() implies link_before(
            #[trigger] after[i],
            #[trigger] after[j],
        ) by {
            if i < p && j == p {
            } else if i == p {
                assert(after[j] == before[j - 1]);
                lemma_link_order(before[p as int], x, x);
                if j - 1 > p {
                    assert(link_before(before[p as int], before[j - 1]));
                    lemma_link_order(x, before[p as int], before[j - 1]);
                }
            } else if i < p {
                assert(after[i] == before[i]);
                if j > p {
                    assert(after[j] == before[j - 1]);
                }
            } else {
                assert(after[i] == before[i - 1]);
                assert(after[j] == before[j - 1]);
            }
        }
        assert forall|l: EventLink| #[trigger] after.contains(l) <==> before.contains(l) || l == x by {
            if before.contains(l) {
                let k = before.index_of(l);
                if k < p {
                    assert(after[k] == l);
                } else {
                    assert(after[k + 1] == l);
                }
            }
            if l == x {
                assert(after[p as int] == l);
            }
            if after.contains(l) && l != x {
                let k = after.index_of(l);
                if k < p {
                    assert(before[k] == l);
                } else {
                    assert(before[k - 1] == l);
                }
            }
        }
    }
}

/// The links of a list that are shown.
pub open spec fn shown<T>(links: Seq<T>) -> Seq<T> {
    if links.len() <= DISPLAYED_INDICATOR_LINKS {
        links
    } else {
        links.take(DISPLAYED_INDICATOR_LINKS as int)
    }
}

pub open spec fn leads_command(links: Seq<CommandLink>, l: EventLink) -> bool {
    exists|i: int|
        0 <= i < links.len() && i < DISPLAYED_INDICATOR_LINKS && ((#[trigger] links[i]).start == l
            || links[i].finish == Some(l))
}

pub open spec fn leads_commands(commands: Seq<CommandFacts>, l: EventLink) -> bool {
    exists|i: int| 0 <= i < commands.len() && leads_command((#[trigger] commands[i]).links, l)
}

pub open spec fn leads_attempts(attempts: Seq<ProcessAttempt>, l: EventLink) -> bool {
    exists|i: int|
        0 <= i < attempts.len() && (shown(links_view((#[trigger] attempts[i]).edit_links@)).contains(l)
            || shown(links_view(attempts[i].command_links@)).contains(l))
}

impl ReviewIndicators {
    /// Whether a shown indicator names the event.
    pub open spec fn leads_to(&self, l: EventLink) -> bool {
        let f = self.factual.view();
        ||| shown(f.allowed_internal_paste.links).contains(l)
        ||| shown(f.historical_origin_unverified_paste.links).contains(l)
        ||| shown(f.unknown_origin_edit.links).contains(l)
        ||| shown(f.rejected_external_change.links).contains(l)
        ||| shown(f.rejected_paste.links).contains(l)
        ||| leads_commands(f.commands, l)
        ||| leads_attempts(self.attempts@, l)
    }
}

fn place_shown(list: &mut Vec<IndicatorEventLink>, links: &Vec<IndicatorEventLink>)
    requires
        ascending(links_view(old(list)@)),
    ensures
        ascending(links_view(final(list)@)),
        forall|l: EventLink| #[trigger]
            links_view(final(list)@).contains(l) <==> links_view(old(list)@).contains(l) || shown(
                links_view(links@),
            ).contains(l),
{
    let ghost first = links_view(list@);
    let ghost all = shown(links_view(links@));
    let mut i: usize = 0;
    assert(all.take(0) =~= Seq::<EventLink>::empty());
    while i < links.len() && i < DISPLAYED_INDICATOR_LINKS
        invariant
            i <= all.len(),
            i <= links@.len(),
            all == shown(links_view(links@)),
            all.len() == (if links@.len() <= DISPLAYED_INDICATOR_LINKS {
                links@.len()
            } else {
                DISPLAYED_INDICATOR_LINKS as nat
            }),
            ascending(links_view(list@)),
            forall|l: EventLink| #[trigger]
                links_view(list@).contains(l) <==> first.contains(l) || all.take(i as int).contains(l),
        decreases links@.len() - i,
    {
        assert(all[i as int] == links@[i as int].view());
        place(list, &links[i]);
        proof {
            let was = all.take(i as int);
            let now = all.take(i + 1);
            assert(now =~= was.push(all[i as int]));
            assert forall|l: EventLink| #[trigger] now.contains(l) <==> was.contains(l) || l == all[i as int] by {
                if was.contains(l) {
                    assert(now[was.index_of(l)] == l);
                }
                if l == all[i as int] {
                    assert(now[i as int] == l);
                }
                if now.contains(l) && l != all[i as int] {
                    assert(was[now.index_of(l)] == l);
                }
            }
        }
        i += 1;
    }
    assert(all.take(all.len() as int) =~= all);
}

fn place_command(list: &mut Vec<IndicatorEventLink>, links: &Vec<CommandEventLink>)
    requires
        ascending(links_view(old(list)@)),
    ensures
        ascending(links_view(final(list)@)),
        forall|l: EventLink| #[trigger]
            links_view(final(list)@).contains(l) <==> links_view(old(list)@).contains(l) || leads_command(
                command_links_view(links@),
                l,
            ),
{
    let ghost first = links_view(list@);
    let ghost all = command_links_view(links@);
    let mut i: usize = 0;
    while i < links.len() && i < DISPLAYED_INDICATOR_LINKS
        invariant
            i <= links@.len(),
            i <= DISPLAYED_INDICATOR_LINKS,
            all == command_links_view(links@),
            ascending(links_view(list@)),
            forall|l: EventLink| #[trigger]
                links_view(list@).contains(l) <==> first.contains(l) || exists|k: int|
                    0 <= k < i && ((#[trigger] all[k]).start == l || all[k].finish == Some(l)),
        decreases links@.len() - i,
    {
        assert(all[i as int] == links@[i as int].view());
        let ghost was = links_view(list@);
        place(list, &links[i].start);
        match &links[i].finish {
            Some(finish) => {
                place(list, finish);
            },
            None => {},
        }
        proof {
            assert forall|l: EventLink| #[trigger]
                links_view(list@).contains(l) <==> first.contains(l) || exists|k: int|
                    0 <= k < i + 1 && ((#[trigger] all[k]).start == l || all[k].finish == Some(l)) by {
                assert(links_view(list@).contains(l) <==> was.contains(l) || all[i as int].start == l
                    || all[i as int].finish == Some(l));
            }
        }
        i += 1;
    }
}

/// The events that the shown indicators name: each once, in order.
pub fn indicator_links(indicators: &ReviewIndicators) -> (r: Vec<IndicatorEventLink>)
    ensures
        ascending(links_view(r@)),
        forall|l: EventLink| #[trigger] links_view(r@).contains(l) <==> indicators.leads_to(l),
{
    let f = &indicators.factual;
    let mut list: Vec<IndicatorEventLink> = Vec::new();
    place_shown(&mut list, &f.allowed_internal_paste.links);
    place_shown(&mut list, &f.historical_origin_unverified_paste.links);
    place_shown(&mut list, &f.unknown_origin_edit.links);
    place_shown(&mut list, &f.rejected_external_change.links);
    place_shown(&mut list, &f.rejected_paste.links);
    let ghost edits = links_view(list@);
    let ghost commands = commands_view(f.commands@);
    let mut i: usize = 0;
    while i < f.commands.len()
        invariant
            i <= f.commands@.len(),
            commands == commands_view(f.commands@),
            ascending(links_view(list@)),
            forall|l: EventLink| #[trigger]
                links_view(list@).contains(l) <==> edits.contains(l) || exists|k: int|
                    0 <= k < i && leads_command((#[trigger] commands[k]).links, l),
        decreases f.commands@.len() - i,
    {
        assert(commands[i as int] == f.commands@[i as int].view());
        let ghost was = links_view(list@);
        place_command(&mut list, &f.commands[i].links);
        proof {
            assert forall|l: EventLink| #[trigger]
                links_view(list@).contains(l) <==> edits.contains(l) || exists|k: int|
                    0 <= k < i + 1 && leads_command((#[trigger] commands[k]).links, l) by {
                assert(links_view(list@).contains(l) <==> was.contains(l) || leads_command(
                    commands[i as int].links,
                    l,
                ));
            }
        }
        i += 1;
    }
    let ghost facts = links_view(list@);
    let attempts = &indicators.attempts;
    let mut j: usize = 0;
    while j < attempts.len()
        invariant
            j <= attempts@.len(),
            ascending(links_view(list@)),
            forall|l: EventLink| #[trigger]
                links_view(list@).contains(l) <==> facts.contains(l) || exists|k: int|
                    0 <= k < j && (shown(links_view((#[trigger] attempts@[k]).edit_links@)).contains(l)
                        || shown(links_view(attempts@[k].command_links@)).contains(l)),
        decreases attempts@.len() - j,
    {
        let ghost was = links_view(list@);
        place_shown(&mut list, &attempts[j].edit_links);
        place_shown(&mut list, &attempts[j].command_links);
        proof {
            assert forall|l: EventLink| #[trigger]
                links_view(list@).contains(l) <==> facts.contains(l) || exists|k: int|
                    0 <= k < j + 1 && (shown(links_view((#[trigger] attempts@[k]).edit_links@)).contains(l)
                        || shown(links_view(attempts@[k].command_links@)).contains(l)) by {
                assert(links_view(list@).contains(l) <==> was.contains(l) || shown(
                    links_view(attempts@[j as int].edit_links@),
                ).contains(l) || shown(links_view(attempts@[j as int].command_links@)).contains(l));
            }
        }
        j += 1;
    }
    list
}

} // verus!
