//! How the answer of a turn reaches its channel.
//!
//! A delivery is a list of commands for the platform. The outcome of each command decides which
//! ones are added and whether the delivery counts as complete.

use vstd::prelude::*;
use vstd::string::*;
use crate::acp_turn::{
    DeliveryOutcome, ExecutionOutcome, LegacyDispatchDisposition, TurnCompletion, TurnOutput,
    TurnTicket,
};
use crate::acp_turn_driver::mentions;
use crate::acp_turn_driver::turn;
use crate::acp_turn_driver::turn::FinishedTurn;
use crate::text;

verus! {

/// Why a delivery fails.
pub const DELIVERY_FAILURE: &'static str = "streaming finalization had delivery failures; user view is incomplete";

/// After how many milliseconds the message of an answer that is being written is edited again.
pub const EDIT_INTERVAL_MS: u64 = 1_500;

/// Up to how many edits in a row may fail while an answer is written.
pub const MAX_CONSECUTIVE_FAILURES: u32 = 3;

/// A command to the platform.
#[derive(Debug, PartialEq, Eq)]
pub enum DeliveryCommand {
    /// Write to the open native stream.
    Append { text: String },
    /// Close the native stream with its final text.
    Finish { text: String },
    /// Send a message. One that replaces the placeholder has it deleted.
    Send { text: String, replaces: bool },
    /// Send a message in reply to another.
    Reply { text: String, to: String, replaces: bool },
    /// Turn the placeholder into a message of the answer.
    Edit { text: String },
    /// Delete the placeholder.
    Delete,
}

/// A command as a mathematical value.
#[verifier::ext_equal]
pub enum CommandModel {
    Append(Seq<char>),
    Finish(Seq<char>),
    Send(Seq<char>, bool),
    Reply(Seq<char>, Seq<char>, bool),
    Edit(Seq<char>),
    Delete,
}

impl DeliveryCommand {
    pub open spec fn model(self) -> CommandModel {
        match self {
            DeliveryCommand::Append { text } => CommandModel::Append(text@),
            DeliveryCommand::Finish { text } => CommandModel::Finish(text@),
            DeliveryCommand::Send { text, replaces } => CommandModel::Send(text@, replaces),
            DeliveryCommand::Reply { text, to, replaces } => CommandModel::Reply(
                text@,
                to@,
                replaces,
            ),
            DeliveryCommand::Edit { text } => CommandModel::Edit(text@),
            DeliveryCommand::Delete => CommandModel::Delete,
        }
    }
}

pub open spec fn command_models(commands: Seq<DeliveryCommand>) -> Seq<CommandModel> {
    commands.map_values(|c: DeliveryCommand| c.model())
}

/// Each part as a message of its own.
pub open spec fn sends(chunks: Seq<Seq<char>>) -> Seq<CommandModel> {
    chunks.map_values(|c: Seq<char>| CommandModel::Send(c, false))
}

/// A command for the first part, and each other part as a message of its own.
pub open spec fn led_by(first: CommandModel, chunks: Seq<Seq<char>>) -> Seq<CommandModel> {
    seq![first] + sends(chunks.skip(1))
}

/// The commands for an open native stream.
pub open spec fn stream_commands(
    pending: Seq<char>,
    content: Seq<char>,
    chunks: Seq<Seq<char>>,
) -> Seq<CommandModel> {
    let rest = if pending.len() > 0 {
        seq![CommandModel::Append(pending)]
    } else {
        Seq::empty()
    };
    if chunks.len() == 0 {
        rest + seq![CommandModel::Finish(content)]
    } else {
        rest + led_by(CommandModel::Finish(chunks[0]), chunks)
    }
}

/// The commands for a channel without a native stream. Replies and mentions need new messages,
/// since an edit notifies nobody; any other answer takes the place of the placeholder.
pub open spec fn message_commands(
    placeholder: Option<Seq<char>>,
    reply_to: Option<Seq<char>>,
    notifies: bool,
    chunks: Seq<Seq<char>>,
) -> Seq<CommandModel> {
    if chunks.len() == 0 {
        Seq::empty()
    } else {
        let replaces = placeholder is Some;
        match reply_to {
            Some(id) => led_by(CommandModel::Reply(chunks[0], id, replaces), chunks),
            None => match placeholder {
                None => sends(chunks),
                Some(message) => if notifies {
                    led_by(CommandModel::Send(chunks[0], true), chunks)
                } else if message == "draft"@ {
                    sends(chunks)
                } else {
                    led_by(CommandModel::Edit(chunks[0]), chunks)
                },
            },
        }
    }
}

/// How a delivery stands: the commands that are left, whether users see any content, and whether
/// a command failed that nothing made up for.
#[verifier::ext_equal]
pub struct DeliveryModel {
    pub commands: Seq<CommandModel>,
    pub delivered: bool,
    pub failed: bool,
}

impl DeliveryModel {
    /// The delivery after its next command was carried out, or was not.
    pub open spec fn reported(self, ok: bool) -> Self {
        if self.commands.len() == 0 {
            self
        } else {
            let rest = self.commands.skip(1);
            match self.commands[0] {
                CommandModel::Append(_) => DeliveryModel {
                    commands: rest,
                    failed: self.failed || !ok,
                    ..self
                },
                CommandModel::Finish(_) => self.settled(rest, ok),
                CommandModel::Send(_, replaces) => self.settled(
                    if ok && replaces {
                        rest.push(CommandModel::Delete)
                    } else {
                        rest
                    },
                    ok,
                ),
                CommandModel::Reply(_, _, replaces) => self.settled(
                    if ok && replaces {
                        rest.push(CommandModel::Delete)
                    } else {
                        rest
                    },
                    ok,
                ),
                CommandModel::Edit(text) => if ok {
                    DeliveryModel { commands: rest, delivered: true, ..self }
                } else {
                    DeliveryModel {
                        commands: seq![CommandModel::Delete, CommandModel::Send(text, false)]
                            + rest,
                        ..self
                    }
                },
                CommandModel::Delete => DeliveryModel { commands: rest, ..self },
            }
        }
    }

    /// The delivery after content was shown, or was not.
    pub open spec fn settled(self, rest: Seq<CommandModel>, ok: bool) -> Self {
        DeliveryModel {
            commands: rest,
            delivered: self.delivered || ok,
            failed: self.failed || !ok,
        }
    }
}

/// Whether mentions of the platform are repeated in every part of a message.
pub open spec fn repeats_mentions(platform: Seq<char>) -> bool {
    platform == "discord"@
}

/// Up to how many characters a part of a message may have, so that all mentions still fit.
pub open spec fn room(content: Seq<char>, platform: Seq<char>, message_limit: int) -> int {
    let reserve = mentions::footer_len(mentions::mentions_of(content));
    if !repeats_mentions(platform) {
        message_limit
    } else if reserve > message_limit {
        0
    } else {
        message_limit - reserve
    }
}

/// How long the parts of a message may be before its mentions are repeated in them.
pub fn chunk_limit(content: &str, platform: &str, message_limit: usize) -> (r: usize)
    ensures
        r == room(content@, platform@, message_limit as int),
{
    if !text::str_eq(platform, "discord") {
        return message_limit;
    }
    let found = mentions::extract_mentions(content);
    let reserve = mentions::mention_footer_len(&found);
    if reserve > message_limit {
        0
    } else {
        message_limit - reserve
    }
}

/// The parts of a message as they are sent.
pub open spec fn final_chunks(
    content: Seq<char>,
    platform: Seq<char>,
    chunks: Seq<Seq<char>>,
    message_limit: int,
) -> Seq<Seq<char>> {
    if repeats_mentions(platform) {
        mentions::propagated(chunks, mentions::mentions_of(content), message_limit)
    } else {
        chunks
    }
}

/// Repeats the mentions of a message in its parts, where the platform needs that.
pub fn finish_chunks(
    content: &str,
    platform: &str,
    chunks: Vec<String>,
    message_limit: usize,
) -> (r: Vec<String>)
    ensures
        text::strings(r@) == final_chunks(
            content@,
            platform@,
            text::strings(chunks@),
            message_limit as int,
        ),
{
    if text::str_eq(platform, "discord") {
        let found = mentions::extract_mentions(content);
        mentions::propagate_mentions_to_chunks(chunks, &found, message_limit)
    } else {
        chunks
    }
}

fn push_sends(commands: &mut Vec<DeliveryCommand>, chunks: &Vec<String>, from: usize)
    requires
        from <= chunks@.len(),
    ensures
        command_models(final(commands)@) == command_models(old(commands)@) + sends(
            text::strings(chunks@).skip(from as int),
        ),
{
    let ghost start = command_models(commands@);
    let ghost all = text::strings(chunks@).skip(from as int);
    let mut i: usize = from;
    assert(start + sends(all.take(0)) =~= start);
    while i < chunks.len()
        invariant
            from <= i <= chunks@.len(),
            all == text::strings(chunks@).skip(from as int),
            command_models(commands@) == start + sends(all.take(i - from)),
        decreases chunks@.len() - i,
    {
        let ghost before = commands@;
        commands.push(DeliveryCommand::Send { text: chunks[i].clone(), replaces: false });
        proof {
            let next = all.take(i + 1 - from);
            assert(command_models(commands@) =~= command_models(before).push(
                CommandModel::Send(chunks@[i as int]@, false),
            ));
            assert(sends(next) =~= sends(all.take(i - from)).push(
                CommandModel::Send(all[i - from], false),
            ));
        }
        i = i + 1;
    }
    assert(all.take(all.len() as int) =~= all);
}

/// The commands of a finished turn.
pub open spec fn planned(
    turn: FinishedTurn,
    content: Seq<char>,
    chunks: Seq<Seq<char>>,
    platform: Seq<char>,
) -> Seq<CommandModel> {
    if turn.native {
        if turn.stream_open {
            stream_commands(turn.native_pending@, content, chunks)
        } else {
            sends(chunks)
        }
    } else {
        message_commands(
            text::opt_text(turn.placeholder),
            text::opt_text(turn.reply_to),
            repeats_mentions(platform) && mentions::mentions_somebody(content),
            chunks,
        )
    }
}

fn plan_stream(pending: &String, content: &String, chunks: &Vec<String>) -> (r: Vec<
    DeliveryCommand,
>)
    ensures
        command_models(r@) == stream_commands(pending@, content@, text::strings(chunks@)),
{
    let ghost parts = text::strings(chunks@);
    let mut commands: Vec<DeliveryCommand> = Vec::new();
    assert(command_models(commands@) =~= Seq::empty());
    if !pending.as_str().is_empty() {
        commands.push(DeliveryCommand::Append { text: pending.clone() });
    }
    let ghost head = command_models(commands@);
    if chunks.len() == 0 {
        commands.push(DeliveryCommand::Finish { text: content.clone() });
    } else {
        commands.push(DeliveryCommand::Finish { text: chunks[0].clone() });
        let ghost led = command_models(commands@);
        assert(led =~= head.push(CommandModel::Finish(parts[0])));
        push_sends(&mut commands, chunks, 1);
        assert(command_models(commands@) =~= head + led_by(CommandModel::Finish(parts[0]), parts));
    }
    assert(command_models(commands@) =~= stream_commands(pending@, content@, parts));
    commands
}

fn plan_messages(
    placeholder: &Option<String>,
    reply_to: &Option<String>,
    notifies: bool,
    chunks: &Vec<String>,
) -> (r: Vec<DeliveryCommand>)
    ensures
        command_models(r@) == message_commands(
            text::opt_text(*placeholder),
            text::opt_text(*reply_to),
            notifies,
            text::strings(chunks@),
        ),
{
    let ghost parts = text::strings(chunks@);
    let mut commands: Vec<DeliveryCommand> = Vec::new();
    assert(command_models(commands@) =~= Seq::empty());
    if chunks.len() == 0 {
        return commands;
    }
    let first = chunks[0].clone();
    let lead = match reply_to {
        Some(id) => Some(
            DeliveryCommand::Reply { text: first, to: id.clone(), replaces: placeholder.is_some() },
        ),
        None => match placeholder {
            None => None,
            Some(message) => if notifies {
                Some(DeliveryCommand::Send { text: first, replaces: true })
            } else if text::str_eq(message.as_str(), "draft") {
                None
            } else {
                Some(DeliveryCommand::Edit { text: first })
            },
        },
    };
    match lead {
        Some(command) => {
            let ghost led = command.model();
            commands.push(command);
            assert(command_models(commands@) =~= seq![led]);
            push_sends(&mut commands, chunks, 1);
        },
        None => {
            push_sends(&mut commands, chunks, 0);
            assert(parts.skip(0) =~= parts);
        },
    }
    commands
}

/// The delivery of a finished turn.
pub struct Delivery {
    pub ticket: TurnTicket,
    pub execution: ExecutionOutcome,
    pub display_text: String,
    pub speech_text: String,
    pub commands: Vec<DeliveryCommand>,
    pub content_delivered: bool,
    pub failed: bool,
}

impl Delivery {
    pub open spec fn model(self) -> DeliveryModel {
        DeliveryModel {
            commands: command_models(self.commands@),
            delivered: self.content_delivered,
            failed: self.failed,
        }
    }

    /// Plans the delivery of a finished turn, whose content was split into parts. A stream that is
    /// open and a placeholder have shown some of the content already.
    pub fn plan(turn: FinishedTurn, content: String, chunks: Vec<String>, platform: &str) -> (r: Self)
        ensures
            r.ticket == turn.ticket,
            r.execution == turn.execution,
            r.display_text == content,
            r.speech_text == turn.speech_text,
            r.model() == (DeliveryModel {
                commands: planned(turn, content@, text::strings(chunks@), platform@),
                delivered: turn.stream_open || turn.placeholder is Some,
                failed: false,
            }),
    {
        let commands = if turn.native {
            if turn.stream_open {
                plan_stream(&turn.native_pending, &content, &chunks)
            } else {
                let mut commands: Vec<DeliveryCommand> = Vec::new();
                push_sends(&mut commands, &chunks, 0);
                assert(command_models(commands@) =~= sends(text::strings(chunks@)));
                commands
            }
        } else {
            let notifies = text::str_eq(platform, "discord") && mentions::contains_bot_mention(
                content.as_str(),
            );
            plan_messages(&turn.placeholder, &turn.reply_to, notifies, &chunks)
        };
        Delivery {
            ticket: turn.ticket,
            execution: turn.execution,
            display_text: content,
            speech_text: turn.speech_text,
            commands,
            content_delivered: turn.stream_open || turn.placeholder.is_some(),
            failed: false,
        }
    }

    /// The next command.
    pub fn next_command(&self) -> (r: Option<&DeliveryCommand>)
        ensures
            match r {
                Some(command) => self.model().commands.len() > 0 && command.model()
                    == self.model().commands[0],
                None => self.model().commands.len() == 0,
            },
    {
        if self.commands.len() == 0 {
            None
        } else {
            Some(&self.commands[0])
        }
    }

    /// Notes whether the next command was carried out.
    pub fn report(&mut self, ok: bool)
        ensures
            final(self).model() == old(self).model().reported(ok),
            final(self).ticket == old(self).ticket,
            final(self).execution == old(self).execution,
            final(self).display_text == old(self).display_text,
            final(self).speech_text == old(self).speech_text,
    {
        if self.commands.len() == 0 {
            return;
        }
        let ghost before = self.model();
        let command = self.commands.remove(0);
        assert(command_models(self.commands@) =~= before.commands.skip(1));
        match command {
            DeliveryCommand::Append { text } => {
                self.failed = self.failed || !ok;
            },
            DeliveryCommand::Finish { text } => {
                self.settle(ok, false);
            },
            DeliveryCommand::Send { text, replaces } => {
                self.settle(ok, replaces);
            },
            DeliveryCommand::Reply { text, to, replaces } => {
                self.settle(ok, replaces);
            },
            DeliveryCommand::Edit { text } => {
                if ok {
                    self.content_delivered = true;
                } else {
                    self.commands.insert(0, DeliveryCommand::Send { text, replaces: false });
                    self.commands.insert(0, DeliveryCommand::Delete);
                    assert(command_models(self.commands@) =~= seq![
                        CommandModel::Delete,
                        CommandModel::Send(text@, false),
                    ] + before.commands.skip(1));
                }
            },
            DeliveryCommand::Delete => {},
        }
        assert(self.model() =~= before.reported(ok));
    }

    fn settle(&mut self, ok: bool, replaces: bool)
        ensures
            final(self).model() == old(self).model().settled(
                if ok && replaces {
                    old(self).model().commands.push(CommandModel::Delete)
                } else {
                    old(self).model().commands
                },
                ok,
            ),
            final(self).ticket == old(self).ticket,
            final(self).execution == old(self).execution,
            final(self).display_text == old(self).display_text,
            final(self).speech_text == old(self).speech_text,
    {
        let ghost before = self.commands@;
        if ok {
            self.content_delivered = true;
            if replaces {
                self.commands.push(DeliveryCommand::Delete);
                assert(command_models(self.commands@) =~= command_models(before).push(
                    CommandModel::Delete,
                ));
            }
        } else {
            self.failed = true;
        }
    }

    /// The turn with what became of its delivery.
    pub fn complete(self) -> (r: TurnCompletion)
        ensures
            r.ticket == self.ticket,
            r.execution == self.execution,
            r.output == Some(
                TurnOutput {
                    display_text: self.display_text,
                    speech_text: self.speech_text,
                    voice_brief: None,
                },
            ),
            match r.delivery {
                DeliveryOutcome::Delivered => !self.failed,
                DeliveryOutcome::Failed { error, partially_delivered } => self.failed && error@
                    == DELIVERY_FAILURE@ && partially_delivered == self.content_delivered,
                DeliveryOutcome::NotAttempted => false,
            },
            match r.legacy_dispatch {
                LegacyDispatchDisposition::Succeeded => !self.failed,
                LegacyDispatchDisposition::Failed { error } => self.failed && error@
                    == DELIVERY_FAILURE@,
            },
    {
        let (delivery, legacy_dispatch) = if self.failed {
            (
                DeliveryOutcome::Failed {
                    error: String::from_str(DELIVERY_FAILURE),
                    partially_delivered: self.content_delivered,
                },
                LegacyDispatchDisposition::Failed { error: String::from_str(DELIVERY_FAILURE) },
            )
        } else {
            (DeliveryOutcome::Delivered, LegacyDispatchDisposition::Succeeded)
        };
        TurnCompletion {
            ticket: self.ticket,
            execution: self.execution,
            output: Some(
                TurnOutput {
                    display_text: self.display_text,
                    speech_text: self.speech_text,
                    voice_brief: None,
                },
            ),
            delivery,
            legacy_dispatch,
        }
    }
}

impl CommandModel {
    /// The part of the answer that a command shows.
    pub open spec fn part(self) -> Option<Seq<char>> {
        match self {
            CommandModel::Append(_) => None,
            CommandModel::Finish(text) => Some(text),
            CommandModel::Send(text, _) => Some(text),
            CommandModel::Reply(text, _, _) => Some(text),
            CommandModel::Edit(text) => Some(text),
            CommandModel::Delete => None,
        }
    }

    /// Up to how many commands it takes to carry a command out.
    pub open spec fn work(self) -> nat {
        match self {
            CommandModel::Edit(_) => 3,
            CommandModel::Send(_, replaces) => if replaces {
                2
            } else {
                1
            },
            CommandModel::Reply(_, _, replaces) => if replaces {
                2
            } else {
                1
            },
            _ => 1,
        }
    }
}

/// The parts of the answer that commands show, in order.
pub open spec fn parts(commands: Seq<CommandModel>) -> Seq<Seq<char>>
    decreases commands.len(),
{
    if commands.len() == 0 {
        Seq::empty()
    } else {
        match commands.last().part() {
            Some(text) => parts(commands.drop_last()).push(text),
            None => parts(commands.drop_last()),
        }
    }
}

/// Up to how many commands are carried out.
pub open spec fn work(commands: Seq<CommandModel>) -> nat
    decreases commands.len(),
{
    if commands.len() == 0 {
        0
    } else {
        work(commands.drop_last()) + commands.last().work()
    }
}

/// The delivery after the outcomes of its next commands.
pub open spec fn after_reports(delivery: DeliveryModel, outcomes: Seq<bool>) -> DeliveryModel
    decreases outcomes.len(),
{
    if outcomes.len() == 0 {
        delivery
    } else {
        after_reports(delivery, outcomes.drop_last()).reported(outcomes.last())
    }
}

proof fn lemma_parts_concat(a: Seq<CommandModel>, b: Seq<CommandModel>)
    ensures
        parts(a + b) == parts(a) + parts(b),
        work(a + b) == work(a) + work(b),
    decreases b.len(),
{
    if b.len() == 0 {
        assert(a + b =~= a);
        assert(parts(a) + parts(b) =~= parts(a));
    } else {
        lemma_parts_concat(a, b.drop_last());
        assert((a + b).drop_last() =~= a + b.drop_last());
        assert((a + b).last() == b.last());
        assert(parts(a + b) =~= parts(a) + parts(b));
    }
}

proof fn lemma_parts_of_one(command: CommandModel)
    ensures
        parts(seq![command]) == match command.part() {
            Some(text) => seq![text],
            None => Seq::empty(),
        },
        work(seq![command]) == command.work(),
{
    assert(seq![command].drop_last() =~= Seq::empty());
    assert(parts(seq![command].drop_last()) =~= Seq::empty());
    assert(work(seq![command].drop_last()) == 0);
    assert(parts(seq![command]) =~= match command.part() {
        Some(text) => seq![text],
        None => Seq::empty(),
    });
}

proof fn lemma_parts_of_sends(chunks: Seq<Seq<char>>)
    ensures
        parts(sends(chunks)) == chunks,
    decreases chunks.len(),
{
    if chunks.len() > 0 {
        lemma_parts_of_sends(chunks.drop_last());
        assert(sends(chunks).drop_last() =~= sends(chunks.drop_last()));
    }
    assert(parts(sends(chunks)) =~= chunks);
}

proof fn lemma_parts_of_led(first: CommandModel, chunks: Seq<Seq<char>>)
    requires
        chunks.len() > 0,
        first.part() == Some(chunks[0]),
    ensures
        parts(led_by(first, chunks)) == chunks,
{
    lemma_parts_concat(seq![first], sends(chunks.skip(1)));
    lemma_parts_of_one(first);
    lemma_parts_of_sends(chunks.skip(1));
    assert(seq![chunks[0]] + chunks.skip(1) =~= chunks);
}

/// A plan shows every part of the answer once and in order, on whatever way it takes. An open
/// stream is closed even where there are no parts.
pub proof fn lemma_every_part_is_planned(
    turn: FinishedTurn,
    content: Seq<char>,
    chunks: Seq<Seq<char>>,
    platform: Seq<char>,
)
    ensures
        parts(planned(turn, content, chunks, platform)) == if turn.native && turn.stream_open
            && chunks.len() == 0 {
            seq![content]
        } else {
            chunks
        },
{
    lemma_parts_of_sends(chunks);
    let plan = planned(turn, content, chunks, platform);
    if turn.native && turn.stream_open {
        let pending = turn.native_pending@;
        let head = if pending.len() > 0 {
            seq![CommandModel::Append(pending)]
        } else {
            Seq::empty()
        };
        lemma_parts_of_one(CommandModel::Append(pending));
        assert(parts(head) =~= Seq::empty());
        if chunks.len() == 0 {
            lemma_parts_of_one(CommandModel::Finish(content));
            lemma_parts_concat(head, seq![CommandModel::Finish(content)]);
        } else {
            let led = led_by(CommandModel::Finish(chunks[0]), chunks);
            lemma_parts_of_led(CommandModel::Finish(chunks[0]), chunks);
            lemma_parts_concat(head, led);
        }
        assert(parts(plan) =~= if chunks.len() == 0 {
            seq![content]
        } else {
            chunks
        });
    } else if !turn.native && chunks.len() > 0 && plan != sends(chunks) {
        lemma_parts_of_led(plan[0], chunks);
        assert(plan =~= led_by(plan[0], chunks));
    } else if chunks.len() == 0 {
        assert(plan =~= Seq::empty());
        assert(chunks =~= Seq::empty());
    }
}

/// A plan does not delete the placeholder; only the outcome of a command can ask for that.
pub proof fn lemma_plan_keeps_placeholder(
    turn: FinishedTurn,
    content: Seq<char>,
    chunks: Seq<Seq<char>>,
    platform: Seq<char>,
)
    ensures
        !planned(turn, content, chunks, platform).contains(CommandModel::Delete),
{
    let plan = planned(turn, content, chunks, platform);
    assert forall|i: int| 0 <= i < plan.len() implies plan[i] != CommandModel::Delete by {}
}

/// The placeholder is deleted only where a message has replaced it, or where editing it failed;
/// then the part that it should have shown is sent instead, and so no part is lost.
pub proof fn lemma_placeholder_outlives_failures(delivery: DeliveryModel)
    requires
        delivery.commands.len() > 0,
    ensures
        !(delivery.commands[0] is Edit) ==> delivery.reported(false).commands
            == delivery.commands.skip(1),
        delivery.commands[0] is Edit ==> parts(delivery.reported(false).commands) == parts(
            delivery.commands,
        ) && delivery.reported(false).failed == delivery.failed,
{
    if delivery.commands[0] is Edit {
        let text = delivery.commands[0]->Edit_0;
        let rest = delivery.commands.skip(1);
        let retry = seq![CommandModel::Delete, CommandModel::Send(text, false)];
        assert(delivery.commands =~= seq![delivery.commands[0]] + rest);
        lemma_parts_concat(seq![delivery.commands[0]], rest);
        lemma_parts_of_one(delivery.commands[0]);
        assert(retry =~= seq![CommandModel::Delete] + seq![CommandModel::Send(text, false)]);
        lemma_parts_concat(
            seq![CommandModel::Delete],
            seq![CommandModel::Send(text, false)],
        );
        lemma_parts_of_one(CommandModel::Delete);
        lemma_parts_of_one(CommandModel::Send(text, false));
        lemma_parts_concat(retry, rest);
        assert(parts(retry) =~= seq![text]);
    }
}

/// Every delivery ends: whatever comes of a command, less is left to do.
pub proof fn lemma_delivery_ends(delivery: DeliveryModel, ok: bool)
    requires
        delivery.commands.len() > 0,
    ensures
        work(delivery.reported(ok).commands) < work(delivery.commands),
{
    let first = delivery.commands[0];
    let rest = delivery.commands.skip(1);
    assert(delivery.commands =~= seq![first] + rest);
    lemma_parts_concat(seq![first], rest);
    lemma_parts_of_one(first);
    lemma_parts_of_one(CommandModel::Delete);
    lemma_parts_concat(rest, seq![CommandModel::Delete]);
    assert(rest.push(CommandModel::Delete) =~= rest + seq![CommandModel::Delete]);
    if first is Edit {
        let text = first->Edit_0;
        let retry = seq![CommandModel::Delete, CommandModel::Send(text, false)];
        assert(retry =~= seq![CommandModel::Delete] + seq![CommandModel::Send(text, false)]);
        lemma_parts_concat(
            seq![CommandModel::Delete],
            seq![CommandModel::Send(text, false)],
        );
        lemma_parts_of_one(CommandModel::Send(text, false));
        lemma_parts_concat(retry, rest);
    }
}

/// Where every command is carried out, the delivery does not fail; where one fails, other than an
/// edit or a deletion, the delivery stays failed whatever follows.
pub proof fn lemma_failures_are_kept(delivery: DeliveryModel, outcomes: Seq<bool>)
    ensures
        (forall|i: int| 0 <= i < outcomes.len() ==> outcomes[i]) ==> after_reports(
            delivery,
            outcomes,
        ).failed == delivery.failed,
        delivery.failed ==> after_reports(delivery, outcomes).failed,
        delivery.delivered ==> after_reports(delivery, outcomes).delivered,
        delivery.commands.len() > 0 && !(delivery.commands[0] is Edit) && !(
        delivery.commands[0] is Delete) ==> delivery.reported(false).failed,
    decreases outcomes.len(),
{
    if outcomes.len() > 0 {
        lemma_failures_are_kept(delivery, outcomes.drop_last());
        if forall|i: int| 0 <= i < outcomes.len() ==> outcomes[i] {
            assert(outcomes.last());
            assert forall|i: int| 0 <= i < outcomes.drop_last().len() implies outcomes.drop_last()[i] by {
                assert(outcomes[i]);
            }
        }
    }
}

/// What to show in the placeholder while the answer is written.
#[derive(Debug, Clone, Copy, PartialEq, Eq, Structural)]
pub enum EditNeed {
    Nothing,
    /// All of the content.
    Whole,
    /// The given number of characters from its end.
    Tail(usize),
}

/// The edits of the placeholder while the answer is written.
pub struct EditLoop {
    pub last: String,
    pub consecutive_failures: u32,
}

impl EditLoop {
    pub fn new() -> (r: Self)
        ensures
            r.last@.len() == 0,
            r.consecutive_failures == 0,
    {
        EditLoop { last: String::new(), consecutive_failures: 0 }
    }

    /// What to show of new content. Content that is shown already needs no edit, and only the end
    /// of content is shown that is too long for a message.
    pub fn need(&self, content: &str, message_limit: usize) -> (r: EditNeed)
        requires
            message_limit >= 100,
        ensures
            r == if content@ == self.last@ {
                EditNeed::Nothing
            } else if content@.len() > message_limit - 100 {
                EditNeed::Tail((message_limit - 100) as usize)
            } else {
                EditNeed::Whole
            },
    {
        if text::str_eq(content, self.last.as_str()) {
            EditNeed::Nothing
        } else if content.unicode_len() > message_limit - 100 {
            EditNeed::Tail(message_limit - 100)
        } else {
            EditNeed::Whole
        }
    }

    /// Notes an edit. Says whether to go on; after a few failures in a row no more edits are made.
    pub fn edited(&mut self, content: String, ok: bool) -> (r: bool)
        requires
            old(self).consecutive_failures < MAX_CONSECUTIVE_FAILURES,
        ensures
            ok ==> final(self).last == content && final(self).consecutive_failures == 0,
            !ok ==> final(self).last == old(self).last && final(self).consecutive_failures == old(
                self,
            ).consecutive_failures + 1,
            r == (final(self).consecutive_failures < MAX_CONSECUTIVE_FAILURES),
    {
        if ok {
            self.consecutive_failures = 0;
            self.last = content;
        } else {
            self.consecutive_failures = self.consecutive_failures + 1;
        }
        self.consecutive_failures < MAX_CONSECUTIVE_FAILURES
    }
}

} // verus!
