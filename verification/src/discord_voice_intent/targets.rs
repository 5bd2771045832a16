//! The bots that a voice command can be delegated to, and how a command names them.

use vstd::prelude::*;
use vstd::slice::slice_subrange;
use vstd::string::*;
use crate::discord_voice_intent::language;
use crate::text;

verus! {

/// The lower-case form of a character.
pub uninterp spec fn char_lowercase(c: char) -> Seq<char>;

/// Turns a character into lower case with `char::to_lowercase`.
///
/// Trusted: the lower-case form is a function of the character and has one or more characters.
#[verifier::external_body]
fn lower_char(c: char) -> (r: Vec<char>)
    ensures
        r@ == char_lowercase(c),
        r@.len() > 0,
{
    c.to_lowercase().collect()
}

/// The lower-case form of a text.
pub uninterp spec fn str_lowercase(s: Seq<char>) -> Seq<char>;

/// Turns a string into lower case with `str::to_lowercase`.
///
/// Trusted: the lower-case form is a function of the characters of the string.
#[verifier::external_body]
fn lower_str(s: &str) -> (r: String)
    ensures
        r@ == str_lowercase(s@),
{
    s.to_lowercase()
}

/// The form in which names are compared.
pub open spec fn match_form(s: Seq<char>) -> Seq<char> {
    str_lowercase(text::trimmed_white(s))
}

/// Turns a text into the form in which names are compared.
pub fn normalize_for_matching(s: &str) -> (r: String)
    ensures
        r@ == match_form(s@),
{
    let chars = text::to_chars(s);
    lower_str(text::from_chars(text::trim_white(chars.as_slice())).as_str())
}

/// A text in lower case, character by character.
pub open spec fn lowered(s: Seq<char>) -> Seq<char>
    decreases s.len(),
{
    if s.len() == 0 {
        Seq::empty()
    } else {
        lowered(s.drop_last()) + char_lowercase(s.last())
    }
}

/// Where the lower-case form of each character of a text starts, and where the last one ends.
pub open spec fn lowered_starts(s: Seq<char>) -> Seq<int> {
    Seq::new(s.len() + 1, |i: int| lowered(s.take(i)).len() as int)
}

/// A text in lower case, with the position in it at which each character of the original starts
/// and the position at which the last one ends. Lower case can take more characters than the
/// original, so positions in one are not positions in the other.
#[derive(Debug, Clone, PartialEq, Eq)]
pub struct NormalizedText {
    pub value: Vec<char>,
    pub starts: Vec<usize>,
}

/// The positions of a normalized text as mathematical integers.
pub open spec fn positions(starts: Seq<usize>) -> Seq<int> {
    starts.map_values(|i: usize| i as int)
}

/// The character of the original at which position `index` of the lower-case form starts.
pub open spec fn original_position(starts: Seq<int>, index: int) -> Option<int>
    decreases starts.len(),
{
    if starts.len() == 0 {
        None
    } else {
        match original_position(starts.drop_last(), index) {
            Some(i) => Some(i),
            None => if starts.last() == index {
                Some(starts.len() - 1)
            } else {
                None
            },
        }
    }
}

impl NormalizedText {
    /// Turns a text into lower case, character by character. The text's lower-case form has to
    /// fit in memory.
    pub fn new(original: &[char]) -> (r: Self)
        ensures
            r.value@ == lowered(original@),
            positions(r.starts@) == lowered_starts(original@),
    {
        let mut value: Vec<char> = Vec::new();
        let mut starts: Vec<usize> = Vec::new();
        let mut i: usize = 0;
        assert(original@.take(0) =~= Seq::empty());
        while i < original.len()
            invariant
                i <= original@.len(),
                value@ == lowered(original@.take(i as int)),
                starts@.len() == i,
                forall|j: int|
                    0 <= j < i ==> (#[trigger] starts@[j]) == lowered(original@.take(j)).len(),
            decreases original@.len() - i,
        {
            starts.push(value.len());
            let mut form = lower_char(original[i]);
            value.append(&mut form);
            assert(original@.take(i + 1).drop_last() =~= original@.take(i as int));
            i = i + 1;
        }
        starts.push(value.len());
        assert(original@.take(original@.len() as int) =~= original@);
        assert(positions(starts@) =~= lowered_starts(original@));
        NormalizedText { value, starts }
    }

    /// The character of the original at which a position of the lower-case form starts. A
    /// position within the lower-case form of one character has none.
    pub fn original_index(&self, index: usize) -> (r: Option<usize>)
        ensures
            match r {
                Some(i) => original_position(positions(self.starts@), index as int) == Some(
                    i as int,
                ) && i < self.starts@.len(),
                None => original_position(positions(self.starts@), index as int) is None,
            },
    {
        let ghost all = positions(self.starts@);
        let mut found: Option<usize> = None;
        let mut i: usize = 0;
        assert(all.take(0) =~= Seq::empty());
        while i < self.starts.len()
            invariant
                i <= self.starts@.len(),
                all == positions(self.starts@),
                match found {
                    Some(k) => original_position(all.take(i as int), index as int) == Some(k as int)
                        && k < i,
                    None => original_position(all.take(i as int), index as int) is None,
                },
            decreases self.starts@.len() - i,
        {
            assert(all.take(i + 1).drop_last() =~= all.take(i as int));
            assert(all.take(i + 1).last() == self.starts@[i as int]);
            if found.is_none() && self.starts[i] == index {
                found = Some(i);
            }
            i = i + 1;
        }
        assert(all.take(all.len() as int) =~= all);
        found
    }
}

/// Whether a name stands at `start` as a word of its own, where it is made of word characters.
pub open spec fn stands_alone(s: Seq<char>, alias: Seq<char>, start: int) -> bool {
    let end = start + alias.len();
    !language::all_word_chars(alias) || ((start == 0 || !text::is_word_char(s[start - 1])) && (end
        == s.len() || !text::is_word_char(s[end])))
}

/// The first position from `i` on at which a name stands, with occurrences that do not overlap
/// looked at one after the other.
pub open spec fn alias_from(s: Seq<char>, alias: Seq<char>, i: int) -> Option<int>
    decreases s.len() + 1 - i,
    via alias_from_terminates
{
    match text::occurrence_from(s, alias, i) {
        None => None,
        Some(k) => if stands_alone(s, alias, k) {
            Some(k)
        } else {
            alias_from(
                s,
                alias,
                if alias.len() == 0 {
                    k + 1
                } else {
                    k + alias.len()
                },
            )
        },
    }
}

#[via_fn]
proof fn alias_from_terminates(s: Seq<char>, alias: Seq<char>, i: int) {
    lemma_occurrence_in_range(s, alias, i);
}

proof fn lemma_occurrence_in_range(s: Seq<char>, p: Seq<char>, i: int)
    ensures
        text::occurrence_from(s, p, i) matches Some(k) ==> i <= k && k + p.len() <= s.len(),
    decreases s.len() + 1 - i,
{
    if i + p.len() <= s.len() && !text::occurs_at(s, p, i) {
        lemma_occurrence_in_range(s, p, i + 1);
    }
}

/// Finds the first position at which a name stands.
pub fn find_alias(s: &[char], alias: &[char]) -> (r: Option<usize>)
    ensures
        match r {
            Some(k) => alias_from(s@, alias@, 0) == Some(k as int) && k + alias@.len() <= s@.len(),
            None => alias_from(s@, alias@, 0) is None,
        },
{
    let word = language::is_all_word_chars(alias);
    let total = s.len();
    let mut from: usize = 0;
    while from <= total
        invariant
            total == s@.len(),
            from <= s@.len() + 1,
            word == language::all_word_chars(alias@),
            alias_from(s@, alias@, 0) == alias_from(s@, alias@, from as int),
        decreases s@.len() + 1 - from,
    {
        match text::find_from(s, alias, from) {
            None => return None,
            Some(start) => {
                let end = start + alias.len();
                let alone = !word || ((start == 0 || !text::is_ascii_word(s[start - 1])) && (end
                    == s.len() || !text::is_ascii_word(s[end])));
                if alone {
                    return Some(start);
                }
                if end == s.len() && alias.len() == 0 {
                    assert(text::occurrence_from(s@, alias@, start + 1) is None);
                    assert(alias_from(s@, alias@, start + 1) is None);
                    return None;
                }
                from = if alias.len() == 0 {
                    start + 1
                } else {
                    end
                };
            },
        }
    }
    assert(text::occurrence_from(s@, alias@, from as int) is None);
    None
}

/// A bot that work can be delegated to. Its names are in the form in which they are compared.
#[derive(Debug, Clone, PartialEq, Eq)]
pub struct IntentTarget {
    pub canonical: String,
    pub discord_user_id: u64,
    pub aliases: Vec<String>,
}

/// The names of each target.
pub open spec fn target_names(targets: Seq<IntentTarget>) -> Seq<Seq<Seq<char>>> {
    targets.map_values(|t: IntentTarget| text::strings(t.aliases@))
}

/// Where one of a target's names stands: the first position at which any does, and of the names
/// there the longest.
pub open spec fn name_span(s: Seq<char>, aliases: Seq<Seq<char>>) -> Option<(int, int)>
    decreases aliases.len(),
{
    if aliases.len() == 0 {
        None
    } else {
        let best = name_span(s, aliases.drop_last());
        let alias = aliases.last();
        match alias_from(s, alias, 0) {
            None => best,
            Some(start) => match best {
                Some((best_start, best_end)) => if start < best_start || (start == best_start
                    && alias.len() > best_end - best_start) {
                    Some((start, start + alias.len()))
                } else {
                    best
                },
                None => Some((start, start + alias.len())),
            },
        }
    }
}

/// Which target a text names.
#[derive(Debug, Clone, Copy, PartialEq, Eq, Structural)]
pub enum TargetMatch {
    /// No target is named.
    Nobody,
    Delegate { target_index: usize, start: usize, end: usize },
    /// More than one target is named.
    Ambiguous,
}

/// Which target a text names, as a mathematical value.
pub enum TargetModel {
    Nobody,
    Delegate { target: int, start: int, end: int },
    Ambiguous,
}

impl View for TargetMatch {
    type V = TargetModel;

    open spec fn view(&self) -> TargetModel {
        match self {
            TargetMatch::Nobody => TargetModel::Nobody,
            TargetMatch::Delegate { target_index, start, end } => TargetModel::Delegate {
                target: *target_index as int,
                start: *start as int,
                end: *end as int,
            },
            TargetMatch::Ambiguous => TargetModel::Ambiguous,
        }
    }
}

/// Which target a text names, if it names exactly one.
pub open spec fn named_target(s: Seq<char>, targets: Seq<Seq<Seq<char>>>) -> TargetModel
    decreases targets.len(),
{
    if targets.len() == 0 {
        TargetModel::Nobody
    } else {
        let before = named_target(s, targets.drop_last());
        match name_span(s, targets.last()) {
            None => before,
            Some((start, end)) => if before is Nobody {
                TargetModel::Delegate { target: targets.len() - 1, start, end }
            } else {
                TargetModel::Ambiguous
            },
        }
    }
}

/// A span of a borrowed pair of positions.
pub open spec fn span_model(span: Option<(usize, usize)>) -> Option<(int, int)> {
    match span {
        Some((start, end)) => Some((start as int, end as int)),
        None => None,
    }
}

/// Finds where one of a target's names stands.
fn find_name(s: &[char], aliases: &Vec<String>) -> (r: Option<(usize, usize)>)
    ensures
        span_model(r) == name_span(s@, text::strings(aliases@)),
        r matches Some((start, end)) ==> start <= end <= s@.len(),
{
    let ghost all = text::strings(aliases@);
    let total = s.len();
    let mut best: Option<(usize, usize)> = None;
    let mut i: usize = 0;
    assert(all.take(0) =~= Seq::empty());
    while i < aliases.len()
        invariant
            i <= aliases@.len(),
            all == text::strings(aliases@),
            total == s@.len(),
            span_model(best) == name_span(s@, all.take(i as int)),
            best matches Some((start, end)) ==> start <= end <= s@.len(),
        decreases aliases@.len() - i,
    {
        assert(all.take(i + 1).drop_last() =~= all.take(i as int));
        let alias = text::to_chars(aliases[i].as_str());
        assert(all.take(i + 1).last() == alias@);
        match find_alias(s, alias.as_slice()) {
            None => {},
            Some(start) => {
                let better = match best {
                    Some((best_start, best_end)) => start < best_start || (start == best_start
                        && alias.len() > best_end - best_start),
                    None => true,
                };
                if better {
                    best = Some((start, start + alias.len()));
                }
            },
        }
        i = i + 1;
    }
    assert(all.take(all.len() as int) =~= all);
    best
}

/// Finds the target that a text names. The text is in lower case.
pub fn find_target_match(s: &[char], targets: &Vec<IntentTarget>) -> (r: TargetMatch)
    ensures
        r@ == named_target(s@, target_names(targets@)),
        r matches TargetMatch::Delegate { target_index, start, end } ==> target_index
            < targets@.len() && start <= end <= s@.len(),
{
    let ghost all = target_names(targets@);
    let mut found = TargetMatch::Nobody;
    let mut i: usize = 0;
    assert(all.take(0) =~= Seq::empty());
    while i < targets.len()
        invariant
            i <= targets@.len(),
            all == target_names(targets@),
            found@ == named_target(s@, all.take(i as int)),
            found matches TargetMatch::Delegate { target_index, start, end } ==> target_index < i
                && start <= end <= s@.len(),
        decreases targets@.len() - i,
    {
        assert(all.take(i + 1).drop_last() =~= all.take(i as int));
        assert(all.take(i + 1).last() == text::strings(targets@[i as int].aliases@));
        match find_name(s, &targets[i].aliases) {
            None => {},
            Some((start, end)) => {
                found = if found == TargetMatch::Nobody {
                    TargetMatch::Delegate { target_index: i, start, end }
                } else {
                    TargetMatch::Ambiguous
                };
            },
        }
        i = i + 1;
    }
    assert(all.take(all.len() as int) =~= all);
    found
}

/// Whether a text names any target at all.
pub open spec fn names_any(s: Seq<char>, targets: Seq<Seq<Seq<char>>>) -> bool {
    !(named_target(s, targets) is Nobody)
}

/// Whether a text in the form in which names are compared names any target.
pub fn mentions_any_target(s: &[char], targets: &Vec<IntentTarget>) -> (r: bool)
    ensures
        r == names_any(s@, target_names(targets@)),
{
    match find_target_match(s, targets) {
        TargetMatch::Nobody => false,
        _ => true,
    }
}

/// Whether a text names any target at all.
pub fn text_mentions_any_target(s: &str, targets: &Vec<IntentTarget>) -> (r: bool)
    ensures
        r == names_any(match_form(s@), target_names(targets@)),
{
    let normalized = normalize_for_matching(s);
    let chars = text::to_chars(normalized.as_str());
    mentions_any_target(chars.as_slice(), targets)
}

/// Where work goes.
#[derive(Debug, Clone, Copy, PartialEq, Eq, Structural)]
pub enum IntentDestination {
    /// To the voice agent itself.
    Local,
    /// To a target.
    Delegate { target_index: usize },
}

/// Work that an operator asked for.
#[derive(Debug, Clone, PartialEq, Eq)]
pub struct IntentProposal {
    pub destination: IntentDestination,
    pub task: String,
}

/// Work as a mathematical value.
#[verifier::ext_equal]
pub struct ProposalModel {
    pub destination: IntentDestination,
    pub task: Seq<char>,
}

impl View for IntentProposal {
    type V = ProposalModel;

    open spec fn view(&self) -> ProposalModel {
        ProposalModel { destination: self.destination, task: self.task@ }
    }
}

pub open spec fn proposal_model(proposal: Option<IntentProposal>) -> Option<ProposalModel> {
    match proposal {
        Some(p) => Some(p@),
        None => None,
    }
}

/// Work for the voice agent itself, where it takes such work.
pub open spec fn local_proposal(s: Seq<char>, default_to_local: bool) -> Option<ProposalModel> {
    if default_to_local {
        match language::local_task(s) {
            Some(task) => Some(ProposalModel { destination: IntentDestination::Local, task }),
            None => None,
        }
    } else {
        None
    }
}

/// The work that a transcript asks for, given its lower-case form and where each of its
/// characters starts in it. A command to a target is what follows the target's name; words that
/// address somebody may stand before the name.
pub open spec fn proposal_from(
    s: Seq<char>,
    value: Seq<char>,
    starts: Seq<int>,
    targets: Seq<Seq<Seq<char>>>,
    default_to_local: bool,
) -> Option<ProposalModel> {
    match named_target(value, targets) {
        TargetModel::Ambiguous => None,
        TargetModel::Nobody => local_proposal(s, default_to_local),
        TargetModel::Delegate { target, start, end } => if !language::prefix_allowed(
            value.take(start),
        ) {
            local_proposal(s, default_to_local)
        } else {
            match original_position(starts, end) {
                None => None,
                Some(i) => match language::task_of(s.skip(i)) {
                    None => None,
                    Some(task) => Some(
                        ProposalModel {
                            destination: IntentDestination::Delegate {
                                target_index: target as usize,
                            },
                            task,
                        },
                    ),
                },
            }
        },
    }
}

/// The work that a transcript asks for.
pub open spec fn proposal_of(
    s: Seq<char>,
    targets: Seq<Seq<Seq<char>>>,
    default_to_local: bool,
) -> Option<ProposalModel> {
    proposal_from(s, lowered(s), lowered_starts(s), targets, default_to_local)
}

fn propose_local(s: &[char], default_to_local: bool) -> (r: Option<IntentProposal>)
    ensures
        proposal_model(r) == local_proposal(s@, default_to_local),
{
    if !default_to_local {
        return None;
    }
    match language::resolve_local_task(s) {
        Some(task) => Some(IntentProposal { destination: IntentDestination::Local, task }),
        None => None,
    }
}

/// Finds the work that a transcript asks for, given its lower-case form.
pub fn resolve_normalized(
    s: &[char],
    normalized: &NormalizedText,
    targets: &Vec<IntentTarget>,
    default_to_local: bool,
) -> (r: Option<IntentProposal>)
    requires
        normalized.starts@.len() <= s@.len() + 1,
    ensures
        proposal_model(r) == proposal_from(
            s@,
            normalized.value@,
            positions(normalized.starts@),
            target_names(targets@),
            default_to_local,
        ),
        r matches Some(p) ==> (p.destination matches IntentDestination::Delegate { target_index }
            ==> target_index < targets@.len()),
{
    match find_target_match(normalized.value.as_slice(), targets) {
        TargetMatch::Ambiguous => None,
        TargetMatch::Nobody => propose_local(s, default_to_local),
        TargetMatch::Delegate { target_index, start, end } => {
            let before = slice_subrange(normalized.value.as_slice(), 0, start);
            assert(before@ =~= normalized.value@.take(start as int));
            if !language::command_prefix_allowed(before) {
                return propose_local(s, default_to_local);
            }
            match normalized.original_index(end) {
                None => None,
                Some(i) => {
                    let rest = slice_subrange(s, i, s.len());
                    assert(rest@ =~= s@.skip(i as int));
                    match language::clean_task(rest) {
                        None => None,
                        Some(task) => Some(
                            IntentProposal {
                                destination: IntentDestination::Delegate { target_index },
                                task: text::from_chars(task),
                            },
                        ),
                    }
                },
            }
        },
    }
}

/// Finds the work that a transcript asks for.
pub fn resolve_proposal(s: &str, targets: &Vec<IntentTarget>, default_to_local: bool) -> (r: Option<
    IntentProposal,
>)
    ensures
        proposal_model(r) == proposal_of(s@, target_names(targets@), default_to_local),
        r matches Some(p) ==> (p.destination matches IntentDestination::Delegate { target_index }
            ==> target_index < targets@.len()),
{
    let chars = text::to_chars(s);
    let normalized = NormalizedText::new(chars.as_slice());
    assert(normalized.starts@.len() == positions(normalized.starts@).len());
    resolve_normalized(chars.as_slice(), &normalized, targets, default_to_local)
}

/// The work that a correction turns a proposal into, given what the correction resolves to on
/// its own and whether it names a target. A correction that does not say where the work goes
/// keeps its destination; one that names a target without being a command to it is refused.
pub open spec fn correction_from(
    current: IntentDestination,
    correction: Seq<char>,
    resolved: Option<ProposalModel>,
    names_target: bool,
) -> Option<ProposalModel> {
    match resolved {
        Some(proposal) => if proposal.destination == IntentDestination::Local
            && language::local_request(language::bare(correction)) is None {
            Some(ProposalModel { destination: current, task: proposal.task })
        } else {
            Some(proposal)
        },
        None => if names_target {
            None
        } else {
            match language::task_of(correction) {
                Some(task) => Some(ProposalModel { destination: current, task }),
                None => None,
            }
        },
    }
}

/// The work that a correction turns a proposal into.
pub open spec fn correction_of(
    current: IntentDestination,
    correction: Seq<char>,
    targets: Seq<Seq<Seq<char>>>,
    default_to_local: bool,
) -> Option<ProposalModel> {
    correction_from(
        current,
        correction,
        proposal_of(correction, targets, default_to_local),
        names_any(match_form(correction), targets),
    )
}

/// Finds the work that a correction turns a proposal into, given what the correction resolves to
/// on its own and whether it names a target.
pub fn apply_correction(
    current: IntentDestination,
    correction: &str,
    resolved: Option<IntentProposal>,
    names_target: bool,
) -> (r: Option<IntentProposal>)
    ensures
        proposal_model(r) == correction_from(
            current,
            correction@,
            proposal_model(resolved),
            names_target,
        ),
        r matches Some(p) ==> p.destination == current || (resolved matches Some(q)
            && p.destination == q.destination),
{
    let chars = text::to_chars(correction);
    match resolved {
        Some(proposal) => {
            if proposal.destination == IntentDestination::Local
                && !language::has_explicit_local_prefix(chars.as_slice()) {
                Some(IntentProposal { destination: current, task: proposal.task })
            } else {
                Some(proposal)
            }
        },
        None => {
            if names_target {
                return None;
            }
            match language::clean_task(chars.as_slice()) {
                Some(task) => Some(
                    IntentProposal { destination: current, task: text::from_chars(task) },
                ),
                None => None,
            }
        },
    }
}

/// Finds the work that a correction turns a proposal into.
pub fn resolve_correction(
    current: IntentDestination,
    correction: &str,
    targets: &Vec<IntentTarget>,
    default_to_local: bool,
) -> (r: Option<IntentProposal>)
    ensures
        proposal_model(r) == correction_of(
            current,
            correction@,
            target_names(targets@),
            default_to_local,
        ),
        r matches Some(p) ==> p.destination == current || (
        p.destination matches IntentDestination::Delegate { target_index } ==> target_index
            < targets@.len()),
{
    let resolved = resolve_proposal(correction, targets, default_to_local);
    let names_target = text_mentions_any_target(correction, targets);
    apply_correction(current, correction, resolved, names_target)
}

} // verus!
