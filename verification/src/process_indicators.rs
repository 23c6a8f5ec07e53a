//! Bounded factual indicators of a recorded attempt.

use crate::model::ControlledAction;
use crate::text;
use vstd::prelude::*;

pub use crate::attempt::{AttemptIndicatorAccumulator, ProcessAttempt, ReviewIndicators};
pub use crate::event_list::indicator_links;
pub use crate::process_display::{
    display_factual_indicators, display_process_attempt, display_process_attempt_details,
    display_terminal_factual_indicators,
};

pub use crate::process_rule::{
    evaluate, observations, OriginScalars, ProcessObservations, ProcessRuleOutcome, ProcessValues,
    PROCESS_RULE_VERSION,
};

verus! {

pub const MAX_RETAINED_INDICATOR_LINKS: usize = 256;

/// The place of an event: which attempt, which session, and where in it.
#[derive(Debug, PartialEq, Eq)]
pub struct IndicatorEventLink {
    pub segment: u32,
    pub session_id: String,
    pub sequence: u64,
}

pub struct EventLink {
    pub segment: u32,
    pub session_id: Seq<char>,
    pub sequence: u64,
}

/// A command's start and, once it is known, its end.
#[derive(Debug, PartialEq, Eq)]
pub struct CommandEventLink {
    pub start: IndicatorEventLink,
    pub finish: Option<IndicatorEventLink>,
}

pub struct CommandLink {
    pub start: EventLink,
    pub finish: Option<EventLink>,
}

impl IndicatorEventLink {
    pub open spec fn view(&self) -> EventLink {
        EventLink {
            segment: self.segment,
            session_id: self.session_id@,
            sequence: self.sequence,
        }
    }

    pub fn copy(&self) -> (r: IndicatorEventLink)
        ensures
            r.view() == self.view(),
    {
        IndicatorEventLink {
            segment: self.segment,
            session_id: self.session_id.clone(),
            sequence: self.sequence,
        }
    }

    pub fn same(&self, other: &IndicatorEventLink) -> (r: bool)
        ensures
            r == (self.view() == other.view()),
    {
        self.segment == other.segment && self.sequence == other.sequence && text::str_eq(
            self.session_id.as_str(),
            other.session_id.as_str(),
        )
    }
}

pub open spec fn opt_link(o: Option<IndicatorEventLink>) -> Option<EventLink> {
    match o {
        Some(l) => Some(l.view()),
        None => None,
    }
}

impl CommandEventLink {
    pub open spec fn view(&self) -> CommandLink {
        CommandLink { start: self.start.view(), finish: opt_link(self.finish) }
    }
}

pub open spec fn links_view(v: Seq<IndicatorEventLink>) -> Seq<EventLink> {
    Seq::new(v.len(), |i: int| v[i].view())
}

pub open spec fn command_links_view(v: Seq<CommandEventLink>) -> Seq<CommandLink> {
    Seq::new(v.len(), |i: int| v[i].view())
}

/// Edits of one kind.
#[derive(Debug, PartialEq, Eq)]
pub struct EditIndicator {
    pub transactions: u64,
    pub inserted_scalars: u64,
    pub links: Vec<IndicatorEventLink>,
}

pub struct EditFacts {
    pub transactions: u64,
    pub inserted_scalars: u64,
    pub links: Seq<EventLink>,
}

/// Rejected attempts of one kind.
#[derive(Debug, PartialEq, Eq)]
pub struct RejectionIndicator {
    pub attempts: u64,
    pub links: Vec<IndicatorEventLink>,
}

pub struct RejectionFacts {
    pub attempts: u64,
    pub links: Seq<EventLink>,
}

/// Commands of one action.
#[derive(Debug, PartialEq, Eq)]
pub struct CommandIndicator {
    pub action: ControlledAction,
    pub started: u64,
    pub complete: u64,
    pub exit_zero: u64,
    pub nonzero_exit: u64,
    pub compiler_errors: u64,
    pub unknown: u64,
    pub links: Vec<CommandEventLink>,
}

pub struct CommandFacts {
    pub action: ControlledAction,
    pub started: u64,
    pub complete: u64,
    pub exit_zero: u64,
    pub nonzero_exit: u64,
    pub compiler_errors: u64,
    pub unknown: u64,
    pub links: Seq<CommandLink>,
}

/// Everything counted of an attempt or of several.
#[derive(Debug, PartialEq, Eq)]
pub struct FactualIndicators {
    pub allowed_internal_paste: EditIndicator,
    pub historical_origin_unverified_paste: EditIndicator,
    pub unknown_origin_edit: EditIndicator,
    pub rejected_external_change: RejectionIndicator,
    pub rejected_paste: RejectionIndicator,
    pub commands: Vec<CommandIndicator>,
}

pub struct Facts {
    pub allowed_internal_paste: EditFacts,
    pub historical_origin_unverified_paste: EditFacts,
    pub unknown_origin_edit: EditFacts,
    pub rejected_external_change: RejectionFacts,
    pub rejected_paste: RejectionFacts,
    pub commands: Seq<CommandFacts>,
}

impl EditIndicator {
    pub open spec fn view(&self) -> EditFacts {
        EditFacts {
            transactions: self.transactions,
            inserted_scalars: self.inserted_scalars,
            links: links_view(self.links@),
        }
    }
}

impl RejectionIndicator {
    pub open spec fn view(&self) -> RejectionFacts {
        RejectionFacts { attempts: self.attempts, links: links_view(self.links@) }
    }
}

impl CommandIndicator {
    pub open spec fn view(&self) -> CommandFacts {
        CommandFacts {
            action: self.action,
            started: self.started,
            complete: self.complete,
            exit_zero: self.exit_zero,
            nonzero_exit: self.nonzero_exit,
            compiler_errors: self.compiler_errors,
            unknown: self.unknown,
            links: command_links_view(self.links@),
        }
    }
}

pub open spec fn commands_view(v: Seq<CommandIndicator>) -> Seq<CommandFacts> {
    Seq::new(v.len(), |i: int| v[i].view())
}

impl FactualIndicators {
    pub open spec fn view(&self) -> Facts {
        Facts {
            allowed_internal_paste: self.allowed_internal_paste.view(),
            historical_origin_unverified_paste: self.historical_origin_unverified_paste.view(),
            unknown_origin_edit: self.unknown_origin_edit.view(),
            rejected_external_change: self.rejected_external_change.view(),
            rejected_paste: self.rejected_paste.view(),
            commands: commands_view(self.commands@),
        }
    }
}

/// The place of an action in the list of commands.
pub open spec fn index_of(action: ControlledAction) -> int {
    match action {
        ControlledAction::Build => 0,
        ControlledAction::Check => 1,
        ControlledAction::Test => 2,
        ControlledAction::Run => 3,
        ControlledAction::Clippy => 4,
        ControlledAction::Format => 5,
        ControlledAction::Doc => 6,
        ControlledAction::Add => 7,
        ControlledAction::Remove => 8,
        ControlledAction::Update => 9,
    }
}

/// The action at a place in the list of commands.
pub open spec fn action_at(i: int) -> ControlledAction {
    if i == 0 {
        ControlledAction::Build
    } else if i == 1 {
        ControlledAction::Check
    } else if i == 2 {
        ControlledAction::Test
    } else if i == 3 {
        ControlledAction::Run
    } else if i == 4 {
        ControlledAction::Clippy
    } else if i == 5 {
        ControlledAction::Format
    } else if i == 6 {
        ControlledAction::Doc
    } else if i == 7 {
        ControlledAction::Add
    } else if i == 8 {
        ControlledAction::Remove
    } else {
        ControlledAction::Update
    }
}

pub fn action_index(action: ControlledAction) -> (r: usize)
    ensures
        r == index_of(action),
        r < 10,
{
    match action {
        ControlledAction::Build => 0,
        ControlledAction::Check => 1,
        ControlledAction::Test => 2,
        ControlledAction::Run => 3,
        ControlledAction::Clippy => 4,
        ControlledAction::Format => 5,
        ControlledAction::Doc => 6,
        ControlledAction::Add => 7,
        ControlledAction::Remove => 8,
        ControlledAction::Update => 9,
    }
}

pub open spec fn no_edits() -> EditFacts {
    EditFacts { transactions: 0, inserted_scalars: 0, links: Seq::empty() }
}

pub open spec fn no_rejections() -> RejectionFacts {
    RejectionFacts { attempts: 0, links: Seq::empty() }
}

pub open spec fn no_commands(action: ControlledAction) -> CommandFacts {
    CommandFacts {
        action,
        started: 0,
        complete: 0,
        exit_zero: 0,
        nonzero_exit: 0,
        compiler_errors: 0,
        unknown: 0,
        links: Seq::empty(),
    }
}

/// Nothing counted, with one entry for each of the ten actions.
pub open spec fn no_facts() -> Facts {
    Facts {
        allowed_internal_paste: no_edits(),
        historical_origin_unverified_paste: no_edits(),
        unknown_origin_edit: no_edits(),
        rejected_external_change: no_rejections(),
        rejected_paste: no_rejections(),
        commands: Seq::new(10, |i: int| no_commands(action_at(i))),
    }
}

impl Default for EditIndicator {
    fn default() -> (r: EditIndicator)
        ensures
            r.view() == no_edits(),
    {
        let r = EditIndicator { transactions: 0, inserted_scalars: 0, links: Vec::new() };
        assert(r.view().links =~= Seq::<EventLink>::empty());
        r
    }
}

impl Default for RejectionIndicator {
    fn default() -> (r: RejectionIndicator)
        ensures
            r.view() == no_rejections(),
    {
        let r = RejectionIndicator { attempts: 0, links: Vec::new() };
        assert(r.view().links =~= Seq::<EventLink>::empty());
        r
    }
}

impl CommandIndicator {
    pub fn new(action: ControlledAction) -> (r: CommandIndicator)
        ensures
            r.view() == no_commands(action),
    {
        let r = CommandIndicator {
            action,
            started: 0,
            complete: 0,
            exit_zero: 0,
            nonzero_exit: 0,
            compiler_errors: 0,
            unknown: 0,
            links: Vec::new(),
        };
        assert(r.view().links =~= Seq::<CommandLink>::empty());
        r
    }
}

impl Default for FactualIndicators {
    fn default() -> (r: FactualIndicators)
        ensures
            r.view() == no_facts(),
    {
        let mut commands: Vec<CommandIndicator> = Vec::new();
        commands.push(CommandIndicator::new(ControlledAction::Build));
        commands.push(CommandIndicator::new(ControlledAction::Check));
        commands.push(CommandIndicator::new(ControlledAction::Test));
        commands.push(CommandIndicator::new(ControlledAction::Run));
        commands.push(CommandIndicator::new(ControlledAction::Clippy));
        commands.push(CommandIndicator::new(ControlledAction::Format));
        commands.push(CommandIndicator::new(ControlledAction::Doc));
        commands.push(CommandIndicator::new(ControlledAction::Add));
        commands.push(CommandIndicator::new(ControlledAction::Remove));
        commands.push(CommandIndicator::new(ControlledAction::Update));
        let r = FactualIndicators {
            allowed_internal_paste: EditIndicator::default(),
            historical_origin_unverified_paste: EditIndicator::default(),
            unknown_origin_edit: EditIndicator::default(),
            rejected_external_change: RejectionIndicator::default(),
            rejected_paste: RejectionIndicator::default(),
            commands,
        };
        assert(r.view().commands =~= no_facts().commands);
        r
    }
}

/// The message of a counter that would pass its largest value.
pub open spec fn overflow(label: Seq<char>) -> Seq<char> {
    label + " overflow"@
}

/// A sum, or the message where it does not fit.
pub open spec fn plus(n: u64, m: u64, label: Seq<char>) -> Result<u64, Seq<char>> {
    if n + m <= u64::MAX {
        Ok((n + m) as u64)
    } else {
        Err(overflow(label))
    }
}

pub open spec fn fits(n: u64, m: u64) -> bool {
    n + m <= u64::MAX
}

/// A counter after an addition that was made or not.
pub open spec fn summed(n: u64, m: u64, made: bool) -> u64 {
    if made {
        (n + m) as u64
    } else {
        n
    }
}

/// Adds to a counter that never wraps: where the sum does not fit, the counter
/// stays as it was.
pub fn checked_add(value: &mut u64, addition: u64, label: &str) -> (r: Result<(), String>)
    ensures
        match plus(*old(value), addition, label@) {
            Ok(n) => r is Ok && *final(value) == n,
            Err(m) => r is Err && r->Err_0@ == m && *final(value) == *old(value),
        },
{
    match value.checked_add(addition) {
        Some(sum) => {
            *value = sum;
            Ok(())
        },
        None => {
            let mut message = label.to_owned();
            message.push_str(" overflow");
            Err(message)
        },
    }
}

/// Adds one to a counter that never wraps.
pub fn checked_increment(value: &mut u64, label: &str) -> (r: Result<(), String>)
    ensures
        match plus(*old(value), 1, label@) {
            Ok(n) => r is Ok && *final(value) == n,
            Err(m) => r is Err && r->Err_0@ == m && *final(value) == *old(value),
        },
{
    checked_add(value, 1, label)
}

/// One more item, while there is room.
pub open spec fn kept<T>(items: Seq<T>, item: T) -> Seq<T> {
    if items.len() < MAX_RETAINED_INDICATOR_LINKS {
        items.push(item)
    } else {
        items
    }
}

/// More items, as many as there is room for.
pub open spec fn kept_all<T>(items: Seq<T>, more: Seq<T>) -> Seq<T> {
    if items.len() >= MAX_RETAINED_INDICATOR_LINKS {
        items
    } else if items.len() + more.len() <= MAX_RETAINED_INDICATOR_LINKS {
        items + more
    } else {
        items + more.take(MAX_RETAINED_INDICATOR_LINKS - items.len())
    }
}

/// One more link, while there is room and only once.
pub open spec fn kept_once(items: Seq<EventLink>, item: EventLink) -> Seq<EventLink> {
    if items.len() < MAX_RETAINED_INDICATOR_LINKS && !items.contains(item) {
        items.push(item)
    } else {
        items
    }
}

/// Keeps an item while there is room.
pub fn retain_bounded<T>(target: &mut Vec<T>, item: T)
    ensures
        final(target)@ == kept(old(target)@, item),
{
    if target.len() < MAX_RETAINED_INDICATOR_LINKS {
        target.push(item);
    }
}

/// Keeps as many items as there is room for.
pub fn extend_bounded<T>(target: &mut Vec<T>, source: Vec<T>)
    ensures
        final(target)@ == kept_all(old(target)@, source@),
{
    let ghost first = target@;
    let mut source = source;
    let remaining: usize = if target.len() < MAX_RETAINED_INDICATOR_LINKS {
        MAX_RETAINED_INDICATOR_LINKS - target.len()
    } else {
        0
    };
    let ghost more = source@;
    if source.len() > remaining {
        source.truncate(remaining);
    }
    let ghost cut = source@;
    target.append(&mut source);
    proof {
        assert(target@ =~= first + cut);
        if more.len() > remaining {
            assert(cut =~= more.take(remaining as int));
        }
        if remaining == 0 {
            assert(first + cut =~= first);
        }
        assert(target@ =~= kept_all(first, more));
    }
}

/// Keeps a link once, while there is room.
pub fn retain_unique_link(target: &mut Vec<IndicatorEventLink>, link: IndicatorEventLink)
    ensures
        links_view(final(target)@) == kept_once(links_view(old(target)@), link.view()),
{
    let ghost all = links_view(target@);
    if target.len() >= MAX_RETAINED_INDICATOR_LINKS {
        return ;
    }
    let mut i: usize = 0;
    while i < target.len()
        invariant
            i <= target@.len(),
            all == links_view(target@),
            forall|j: int| 0 <= j < i ==> all[j] != link.view(),
        decreases target@.len() - i,
    {
        assert(all[i as int] == target@[i as int].view());
        if target[i].same(&link) {
            assert(all.contains(link.view()));
            return ;
        }
        i += 1;
    }
    target.push(link);
    assert(links_view(target@) =~= all.push(link.view()));
}

/// An indicator with one more edit.
pub open spec fn edit_added(e: EditFacts, inserted: u64, link: EventLink) -> Result<
    EditFacts,
    Seq<char>,
> {
    match plus(e.transactions, 1, "edit indicator count"@) {
        Ok(transactions) => match plus(
            e.inserted_scalars,
            inserted,
            "edit indicator scalar count"@,
        ) {
            Ok(inserted_scalars) => Ok(
                EditFacts { transactions, inserted_scalars, links: kept(e.links, link) },
            ),
            Err(m) => Err(m),
        },
        Err(m) => Err(m),
    }
}

/// An indicator after one more edit was counted, as far as it could be.
pub open spec fn edit_left(e: EditFacts, inserted: u64, link: EventLink) -> EditFacts {
    let first = fits(e.transactions, 1);
    let second = first && fits(e.inserted_scalars, inserted);
    EditFacts {
        transactions: summed(e.transactions, 1, first),
        inserted_scalars: summed(e.inserted_scalars, inserted, second),
        links: if second {
            kept(e.links, link)
        } else {
            e.links
        },
    }
}

/// An indicator with one more rejection.
pub open spec fn rejection_added(e: RejectionFacts, link: EventLink) -> Result<
    RejectionFacts,
    Seq<char>,
> {
    match plus(e.attempts, 1, "rejection indicator count"@) {
        Ok(attempts) => Ok(RejectionFacts { attempts, links: kept(e.links, link) }),
        Err(m) => Err(m),
    }
}

pub fn retain_link(target: &mut Vec<IndicatorEventLink>, link: IndicatorEventLink)
    ensures
        links_view(final(target)@) == kept(links_view(old(target)@), link.view()),
{
    let ghost before = target@;
    retain_bounded(target, link);
    assert(links_view(target@) =~= kept(links_view(before), link.view()));
}

fn extend_links(target: &mut Vec<IndicatorEventLink>, source: Vec<IndicatorEventLink>)
    ensures
        links_view(final(target)@) == kept_all(links_view(old(target)@), links_view(source@)),
{
    let ghost before = target@;
    let ghost more = source@;
    extend_bounded(target, source);
    assert(links_view(target@) =~= kept_all(links_view(before), links_view(more)));
}

pub fn add_edit_indicator(
    indicator: &mut EditIndicator,
    inserted: u64,
    link: IndicatorEventLink,
) -> (r: Result<(), String>)
    ensures
        match edit_added(old(indicator).view(), inserted, link.view()) {
            Ok(e) => r is Ok && final(indicator).view() == e,
            Err(m) => r is Err && r->Err_0@ == m && final(indicator).view() == edit_left(
                old(indicator).view(),
                inserted,
                link.view(),
            ),
        },
{
    checked_increment(&mut indicator.transactions, "edit indicator count")?;
    checked_add(&mut indicator.inserted_scalars, inserted, "edit indicator scalar count")?;
    retain_link(&mut indicator.links, link);
    Ok(())
}

pub fn add_rejection_indicator(
    indicator: &mut RejectionIndicator,
    link: IndicatorEventLink,
) -> (r: Result<(), String>)
    ensures
        match rejection_added(old(indicator).view(), link.view()) {
            Ok(e) => r is Ok && final(indicator).view() == e,
            Err(m) => r is Err && r->Err_0@ == m && *final(indicator) == *old(indicator),
        },
{
    checked_increment(&mut indicator.attempts, "rejection indicator count")?;
    retain_link(&mut indicator.links, link);
    Ok(())
}

/// Two indicators of one kind taken together.
pub open spec fn edits_merged(a: EditFacts, b: EditFacts) -> Result<EditFacts, Seq<char>> {
    match plus(a.transactions, b.transactions, "edit indicator count"@) {
        Ok(transactions) => match plus(
            a.inserted_scalars,
            b.inserted_scalars,
            "edit indicator scalar count"@,
        ) {
            Ok(inserted_scalars) => Ok(
                EditFacts { transactions, inserted_scalars, links: kept_all(a.links, b.links) },
            ),
            Err(m) => Err(m),
        },
        Err(m) => Err(m),
    }
}

/// The first of two indicators after they were taken together, as far as they could
/// be.
pub open spec fn edits_left(a: EditFacts, b: EditFacts) -> EditFacts {
    let first = fits(a.transactions, b.transactions);
    let second = first && fits(a.inserted_scalars, b.inserted_scalars);
    EditFacts {
        transactions: summed(a.transactions, b.transactions, first),
        inserted_scalars: summed(a.inserted_scalars, b.inserted_scalars, second),
        links: if second {
            kept_all(a.links, b.links)
        } else {
            a.links
        },
    }
}

pub open spec fn rejections_merged(a: RejectionFacts, b: RejectionFacts) -> Result<
    RejectionFacts,
    Seq<char>,
> {
    match plus(a.attempts, b.attempts, "rejection indicator count"@) {
        Ok(attempts) => Ok(RejectionFacts { attempts, links: kept_all(a.links, b.links) }),
        Err(m) => Err(m),
    }
}

pub open spec fn commands_merged(a: CommandFacts, b: CommandFacts) -> Result<
    CommandFacts,
    Seq<char>,
> {
    match plus(a.started, b.started, "command start count"@) {
        Err(m) => Err(m),
        Ok(started) => match plus(a.complete, b.complete, "complete command count"@) {
            Err(m) => Err(m),
            Ok(complete) => match plus(a.exit_zero, b.exit_zero, "zero-exit command count"@) {
                Err(m) => Err(m),
                Ok(exit_zero) => match plus(
                    a.nonzero_exit,
                    b.nonzero_exit,
                    "nonzero command count"@,
                ) {
                    Err(m) => Err(m),
                    Ok(nonzero_exit) => match plus(
                        a.compiler_errors,
                        b.compiler_errors,
                        "compiler-error command count"@,
                    ) {
                        Err(m) => Err(m),
                        Ok(compiler_errors) => match plus(
                            a.unknown,
                            b.unknown,
                            "unknown command count"@,
                        ) {
                            Err(m) => Err(m),
                            Ok(unknown) => Ok(
                                CommandFacts {
                                    action: a.action,
                                    started,
                                    complete,
                                    exit_zero,
                                    nonzero_exit,
                                    compiler_errors,
                                    unknown,
                                    links: kept_all(a.links, b.links),
                                },
                            ),
                        },
                    },
                },
            },
        },
    }
}

/// The first of two command entries after they were taken together, as far as they
/// could be: one counter after the other, up to one that did not fit.
pub open spec fn commands_left(a: CommandFacts, b: CommandFacts) -> CommandFacts {
    let started = fits(a.started, b.started);
    let complete = started && fits(a.complete, b.complete);
    let exit_zero = complete && fits(a.exit_zero, b.exit_zero);
    let nonzero_exit = exit_zero && fits(a.nonzero_exit, b.nonzero_exit);
    let compiler_errors = nonzero_exit && fits(a.compiler_errors, b.compiler_errors);
    let unknown = compiler_errors && fits(a.unknown, b.unknown);
    CommandFacts {
        action: a.action,
        started: summed(a.started, b.started, started),
        complete: summed(a.complete, b.complete, complete),
        exit_zero: summed(a.exit_zero, b.exit_zero, exit_zero),
        nonzero_exit: summed(a.nonzero_exit, b.nonzero_exit, nonzero_exit),
        compiler_errors: summed(a.compiler_errors, b.compiler_errors, compiler_errors),
        unknown: summed(a.unknown, b.unknown, unknown),
        links: if unknown {
            kept_all(a.links, b.links)
        } else {
            a.links
        },
    }
}

/// The first `n` command entries of `more`, each merged into the entry of its
/// action.
pub open spec fn command_lists_merged(
    target: Seq<CommandFacts>,
    more: Seq<CommandFacts>,
    n: nat,
) -> Result<Seq<CommandFacts>, Seq<char>>
    decreases n,
{
    if n == 0 {
        Ok(target)
    } else {
        match command_lists_merged(target, more, (n - 1) as nat) {
            Err(m) => Err(m),
            Ok(done) => {
                let i = index_of(more[n - 1].action);
                match commands_merged(done[i], more[n - 1]) {
                    Err(m) => Err(m),
                    Ok(c) => Ok(done.update(i, c)),
                }
            },
        }
    }
}

/// The entries after the first `n` of `more` were merged, as far as they could be.
pub open spec fn command_lists_left(
    target: Seq<CommandFacts>,
    more: Seq<CommandFacts>,
    n: nat,
) -> Seq<CommandFacts>
    decreases n,
{
    if n == 0 {
        target
    } else {
        match command_lists_merged(target, more, (n - 1) as nat) {
            Err(_) => command_lists_left(target, more, (n - 1) as nat),
            Ok(done) => {
                let i = index_of(more[n - 1].action);
                done.update(i, commands_left(done[i], more[n - 1]))
            },
        }
    }
}

/// The first of two attempts' facts after they were taken together, as far as they
/// could be: one indicator after the other, up to one that did not fit.
pub open spec fn facts_left(a: Facts, b: Facts) -> Facts {
    let allowed = edits_merged(a.allowed_internal_paste, b.allowed_internal_paste) is Ok;
    let historical = allowed && edits_merged(
        a.historical_origin_unverified_paste,
        b.historical_origin_unverified_paste,
    ) is Ok;
    let unknown = historical && edits_merged(a.unknown_origin_edit, b.unknown_origin_edit) is Ok;
    let external = rejections_merged(a.rejected_external_change, b.rejected_external_change);
    let paste = rejections_merged(a.rejected_paste, b.rejected_paste);
    Facts {
        allowed_internal_paste: edits_left(a.allowed_internal_paste, b.allowed_internal_paste),
        historical_origin_unverified_paste: if allowed {
            edits_left(
                a.historical_origin_unverified_paste,
                b.historical_origin_unverified_paste,
            )
        } else {
            a.historical_origin_unverified_paste
        },
        unknown_origin_edit: if historical {
            edits_left(a.unknown_origin_edit, b.unknown_origin_edit)
        } else {
            a.unknown_origin_edit
        },
        rejected_external_change: if unknown && external is Ok {
            external->Ok_0
        } else {
            a.rejected_external_change
        },
        rejected_paste: if unknown && external is Ok && paste is Ok {
            paste->Ok_0
        } else {
            a.rejected_paste
        },
        commands: if unknown && external is Ok && paste is Ok {
            command_lists_left(a.commands, b.commands, b.commands.len())
        } else {
            a.commands
        },
    }
}

/// The facts of two attempts taken together.
pub open spec fn facts_merged(a: Facts, b: Facts) -> Result<Facts, Seq<char>> {
    match edits_merged(a.allowed_internal_paste, b.allowed_internal_paste) {
        Err(m) => Err(m),
        Ok(allowed) => match edits_merged(
            a.historical_origin_unverified_paste,
            b.historical_origin_unverified_paste,
        ) {
            Err(m) => Err(m),
            Ok(historical) => match edits_merged(a.unknown_origin_edit, b.unknown_origin_edit) {
                Err(m) => Err(m),
                Ok(unknown) => match rejections_merged(
                    a.rejected_external_change,
                    b.rejected_external_change,
                ) {
                    Err(m) => Err(m),
                    Ok(external) => match rejections_merged(a.rejected_paste, b.rejected_paste) {
                        Err(m) => Err(m),
                        Ok(paste) => match command_lists_merged(
                            a.commands,
                            b.commands,
                            b.commands.len(),
                        ) {
                            Err(m) => Err(m),
                            Ok(commands) => Ok(
                                Facts {
                                    allowed_internal_paste: allowed,
                                    historical_origin_unverified_paste: historical,
                                    unknown_origin_edit: unknown,
                                    rejected_external_change: external,
                                    rejected_paste: paste,
                                    commands,
                                },
                            ),
                        },
                    },
                },
            },
        },
    }
}

fn merge_edit_indicator(target: &mut EditIndicator, source: EditIndicator) -> (r: Result<
    (),
    String,
>)
    ensures
        match edits_merged(old(target).view(), source.view()) {
            Ok(e) => r is Ok && final(target).view() == e,
            Err(m) => r is Err && r->Err_0@ == m && final(target).view() == edits_left(
                old(target).view(),
                source.view(),
            ),
        },
{
    checked_add(&mut target.transactions, source.transactions, "edit indicator count")?;
    checked_add(
        &mut target.inserted_scalars,
        source.inserted_scalars,
        "edit indicator scalar count",
    )?;
    extend_links(&mut target.links, source.links);
    Ok(())
}

fn merge_rejection_indicator(target: &mut RejectionIndicator, source: RejectionIndicator) -> (r:
    Result<(), String>)
    ensures
        match rejections_merged(old(target).view(), source.view()) {
            Ok(e) => r is Ok && final(target).view() == e,
            Err(m) => r is Err && r->Err_0@ == m && *final(target) == *old(target),
        },
{
    checked_add(&mut target.attempts, source.attempts, "rejection indicator count")?;
    extend_links(&mut target.links, source.links);
    Ok(())
}

fn merge_command(target: &mut CommandIndicator, source: CommandIndicator) -> (r: Result<
    (),
    String,
>)
    ensures
        match commands_merged(old(target).view(), source.view()) {
            Ok(e) => r is Ok && final(target).view() == e,
            Err(m) => r is Err && r->Err_0@ == m && final(target).view() == commands_left(
                old(target).view(),
                source.view(),
            ),
        },
{
    checked_add(&mut target.started, source.started, "command start count")?;
    checked_add(&mut target.complete, source.complete, "complete command count")?;
    checked_add(&mut target.exit_zero, source.exit_zero, "zero-exit command count")?;
    checked_add(&mut target.nonzero_exit, source.nonzero_exit, "nonzero command count")?;
    checked_add(
        &mut target.compiler_errors,
        source.compiler_errors,
        "compiler-error command count",
    )?;
    checked_add(&mut target.unknown, source.unknown, "unknown command count")?;
    let ghost before = target.links@;
    let ghost more = source.links@;
    extend_bounded(&mut target.links, source.links);
    assert(command_links_view(target.links@) =~= kept_all(
        command_links_view(before),
        command_links_view(more),
    ));
    Ok(())
}

proof fn lemma_merge_fails(target: Seq<CommandFacts>, more: Seq<CommandFacts>, n: nat, m: nat)
    requires
        n <= m,
        command_lists_merged(target, more, n) is Err,
    ensures
        command_lists_merged(target, more, m) == command_lists_merged(target, more, n),
        command_lists_left(target, more, m) == command_lists_left(target, more, n),
    decreases m - n,
{
    if n < m {
        lemma_merge_fails(target, more, n, (m - 1) as nat);
    }
}

fn merge_commands(target: &mut Vec<CommandIndicator>, source: Vec<CommandIndicator>) -> (r: Result<
    (),
    String,
>)
    requires
        old(target)@.len() == 10,
    ensures
        match command_lists_merged(
            commands_view(old(target)@),
            commands_view(source@),
            source@.len(),
        ) {
            Ok(c) => r is Ok && commands_view(final(target)@) == c,
            Err(m) => r is Err && r->Err_0@ == m && commands_view(final(target)@)
                == command_lists_left(
                commands_view(old(target)@),
                commands_view(source@),
                source@.len(),
            ),
        },
{
    let ghost first = commands_view(target@);
    let ghost more = commands_view(source@);
    let count: usize = source.len();
    let ghost total = source@.len();
    let mut rest = source;
    let mut done: usize = 0;
    assert(more.skip(0) =~= more);
    while rest.len() > 0
        invariant
            done + rest@.len() == total,
            total == more.len(),
            total == source@.len(),
            total == count,
            first == commands_view(old(target)@),
            more == commands_view(source@),
            target@.len() == 10,
            commands_view(rest@) == more.skip(done as int),
            command_lists_merged(first, more, done as nat) == Ok::<Seq<CommandFacts>, Seq<char>>(
                commands_view(target@),
            ),
        decreases rest@.len(),
    {
        let ghost before = target@;
        assert(commands_view(rest@)[0] == more.skip(done as int)[0]);
        let ghost all = rest@;
        let item = rest.remove(0);
        assert(commands_view(rest@) =~= more.skip(done as int + 1)) by {
            assert forall|k: int| 0 <= k < rest@.len() implies commands_view(rest@)[k] == more.skip(
                done as int + 1,
            )[k] by {
                assert(commands_view(all)[k + 1] == more.skip(done as int)[k + 1]);
            }
        }
        assert(item.view() == more[done as int]);
        let i = action_index(item.action);
        assert(commands_view(before)[i as int] == before[i as int].view());
        match merge_command(&mut target[i], item) {
            Ok(()) => {
                assert(commands_view(target@) =~= commands_view(before).update(
                    i as int,
                    target@[i as int].view(),
                ));
            },
            Err(message) => {
                assert(commands_view(target@) =~= commands_view(before).update(
                    i as int,
                    target@[i as int].view(),
                ));
                proof {
                    lemma_merge_fails(first, more, (done + 1) as nat, total);
                }
                return Err(message);
            },
        }
        done += 1;
    }
    Ok(())
}

/// Merges the facts of one attempt into those of others. After an error the
/// target holds what was merged up to the counter that did not fit.
pub fn merge_factual(target: &mut FactualIndicators, source: FactualIndicators) -> (r: Result<
    (),
    String,
>)
    requires
        old(target).commands@.len() == 10,
    ensures
        match facts_merged(old(target).view(), source.view()) {
            Ok(f) => r is Ok && final(target).view() == f,
            Err(m) => r is Err && r->Err_0@ == m && final(target).view() == facts_left(
                old(target).view(),
                source.view(),
            ),
        },
{
    merge_edit_indicator(&mut target.allowed_internal_paste, source.allowed_internal_paste)?;
    merge_edit_indicator(
        &mut target.historical_origin_unverified_paste,
        source.historical_origin_unverified_paste,
    )?;
    merge_edit_indicator(&mut target.unknown_origin_edit, source.unknown_origin_edit)?;
    merge_rejection_indicator(
        &mut target.rejected_external_change,
        source.rejected_external_change,
    )?;
    merge_rejection_indicator(&mut target.rejected_paste, source.rejected_paste)?;
    merge_commands(&mut target.commands, source.commands)?;
    Ok(())
}

} // verus!
