//! Rolling summaries: when a conversation is summarized, and which of its
//! messages.

use vstd::prelude::*;
use vstd::string::StringExecFns;
use crate::entities::{AuthorType, Message};
use crate::strings::{join, joined, texts};
use crate::text::{clone_opt, opt_str_text, opt_text, str_eq};
use crate::tokens::{estimate_tokens, estimated_tokens};

verus! {

/// Messages at the end of the chain that are never summarized.
pub const RECENT_CONTEXT: usize = 5;

/// Tokens of summaries that are looked at when the last summary is sought.
pub const SUMMARY_LOOKUP_BUDGET: i32 = 10000;

/// A summary of a stretch of a conversation.
#[derive(Clone, Debug, PartialEq, Eq)]
pub struct ConversationSummary {
    pub id: String,
    pub conversation_id: String,
    pub content: String,
    pub message_range_start: Option<String>,
    pub message_range_end: Option<String>,
    pub message_count: i32,
    pub token_count: i32,
    pub created_at: i64,
}

impl ConversationSummary {
    /// A copy of the summary.
    pub fn copy(&self) -> (copy: ConversationSummary)
        ensures
            copy == *self,
    {
        ConversationSummary {
            id: self.id.clone(),
            conversation_id: self.conversation_id.clone(),
            content: self.content.clone(),
            message_range_start: clone_opt(&self.message_range_start),
            message_range_end: clone_opt(&self.message_range_end),
            message_count: self.message_count,
            token_count: self.token_count,
            created_at: self.created_at,
        }
    }
}

/// Where the messages begin that no summary covers yet: behind the message
/// with the id `last`, at the start where there is no last summary, and at
/// the end where the message is not in the chain.
pub open spec fn unsummarized_from(messages: Seq<Message>, last: Option<Seq<char>>, from: int) -> int
    decreases messages.len() - from + 1,
{
    match last {
        None => 0,
        Some(id) => if from < 0 || from >= messages.len() {
            messages.len() as int
        } else if messages[from].id@ == id {
            from + 1
        } else {
            unsummarized_from(messages, last, from + 1)
        },
    }
}

/// The tokens of the messages from `from` up to `to`.
pub open spec fn tokens_between(messages: Seq<Message>, from: int, to: int) -> int
    decreases to - from,
{
    if from >= to {
        0
    } else {
        tokens_between(messages, from, to - 1) + messages[to - 1].token_count
    }
}

/// The stretch of the chain that is to be summarized.
#[derive(Clone, Copy, Debug, PartialEq, Eq, Structural)]
pub struct SummaryRange {
    /// The position of the first message of the stretch.
    pub start: usize,
    /// The position behind the last message of the stretch.
    pub end: usize,
}

/// The stretch to be summarized, if the conversation is due: the messages
/// behind the last summary, without the last five. The conversation is due
/// when those messages are at least `message_threshold`, or have at least
/// `token_threshold` tokens, and are more than five.
pub open spec fn due_range(
    messages: Seq<Message>,
    last: Option<Seq<char>>,
    message_threshold: int,
    token_threshold: int,
) -> Option<(int, int)> {
    let start = unsummarized_from(messages, last, 0);
    let count = messages.len() - start;
    let tokens = tokens_between(messages, start, messages.len() as int);
    if count < message_threshold && tokens < token_threshold {
        None
    } else if count <= RECENT_CONTEXT {
        None
    } else {
        Some((start, messages.len() - RECENT_CONTEXT))
    }
}

/// The summaries without those of the conversation `conversation`.
pub open spec fn without_conversation(summaries: Seq<ConversationSummary>, conversation: Seq<char>) -> Seq<
    ConversationSummary,
>
    decreases summaries.len(),
{
    if summaries.len() == 0 {
        Seq::empty()
    } else if summaries.last().conversation_id@ == conversation {
        without_conversation(summaries.drop_last(), conversation)
    } else {
        without_conversation(summaries.drop_last(), conversation).push(summaries.last())
    }
}

/// The unit that holds the operations on summaries.
pub struct SummaryService;

impl SummaryService {
    /// Decides whether the conversation is due for a summary, and which
    /// stretch of its active chain is summarized.
    pub fn plan(
        messages: &Vec<Message>,
        last_summarized_id: Option<&str>,
        message_threshold: i32,
        token_threshold: i32,
    ) -> (range: Option<SummaryRange>)
        ensures
            match range {
                Some(r) => due_range(
                    messages@,
                    opt_str_text(last_summarized_id),
                    message_threshold as int,
                    token_threshold as int,
                ) == Some((r.start as int, r.end as int)) && r.start < r.end <= messages@.len(),
                None => due_range(
                    messages@,
                    opt_str_text(last_summarized_id),
                    message_threshold as int,
                    token_threshold as int,
                ) is None,
            },
    {
        let ghost last = opt_str_text(last_summarized_id);
        let start: usize = match last_summarized_id {
            None => 0,
            Some(id) => {
                let mut i: usize = 0;
                let mut found: usize = messages.len();
                while i < messages.len()
                    invariant_except_break
                        found == messages.len(),
                        unsummarized_from(messages@, last, 0) == unsummarized_from(
                            messages@,
                            last,
                            i as int,
                        ),
                    invariant
                        i <= messages.len(),
                        last == Some(id@),
                    ensures
                        found == unsummarized_from(messages@, last, 0),
                        found <= messages.len(),
                    decreases messages.len() - i,
                {
                    if str_eq(messages[i].id.as_str(), id) {
                        found = i + 1;
                        break;
                    }
                    i += 1;
                }
                found
            },
        };
        let count = messages.len() - start;
        let mut tokens: i128 = 0;
        let mut i: usize = start;
        while i < messages.len()
            invariant
                start <= i <= messages.len(),
                tokens == tokens_between(messages@, start as int, i as int),
                -0x8000_0000 * (i - start) <= tokens <= 0x8000_0000 * (i - start),
            decreases messages.len() - i,
        {
            tokens = tokens + messages[i].token_count as i128;
            i += 1;
        }
        let few = message_threshold >= 0 && count < message_threshold as usize;
        if few && tokens < token_threshold as i128 {
            return None;
        }
        if count <= RECENT_CONTEXT {
            return None;
        }
        Some(SummaryRange { start, end: messages.len() - RECENT_CONTEXT })
    }

    /// The line under which a message goes into the text to be summarized:
    /// `User` or `Character`, a colon, and the content.
    pub open spec fn line_text(message: Message) -> Seq<char> {
        (if message.author_type == AuthorType::User {
            "User"@
        } else {
            "Character"@
        }) + ": "@ + message.content@
    }

    /// The lines of the messages from `from` up to `to`.
    pub open spec fn lines_text(messages: Seq<Message>, from: int, to: int) -> Seq<Seq<char>>
        decreases to - from,
    {
        if from >= to {
            Seq::empty()
        } else {
            SummaryService::lines_text(messages, from, to - 1).push(
                SummaryService::line_text(messages[to - 1]),
            )
        }
    }

    /// The prompt that asks the model for a summary of a stretch of the
    /// chain.
    pub open spec fn prompt_text(messages: Seq<Message>, from: int, to: int) -> Seq<char> {
        "Summarize this conversation in 2-3 sentences, focusing on key topics and any important facts learned about the user:\n\n"@
            + joined(SummaryService::lines_text(messages, from, to), "\n"@) + "\n\nSummary:"@
    }

    /// The prompt that asks the model for a summary of the stretch `range`
    /// of the chain.
    pub fn prompt(messages: &Vec<Message>, range: SummaryRange) -> (prompt: String)
        requires
            range.start <= range.end <= messages@.len(),
        ensures
            prompt@ == SummaryService::prompt_text(
                messages@,
                range.start as int,
                range.end as int,
            ),
    {
        let mut lines: Vec<String> = Vec::new();
        let mut i: usize = range.start;
        assert(texts(lines@) =~= SummaryService::lines_text(
            messages@,
            range.start as int,
            range.start as int,
        ));
        while i < range.end
            invariant
                range.start <= i <= range.end <= messages@.len(),
                texts(lines@) == SummaryService::lines_text(
                    messages@,
                    range.start as int,
                    i as int,
                ),
            decreases range.end - i,
        {
            let who = match messages[i].author_type {
                AuthorType::User => "User",
                _ => "Character",
            };
            let mut line = who.to_owned();
            line.append(": ");
            line.append(messages[i].content.as_str());
            let ghost before = texts(lines@);
            lines.push(line);
            i += 1;
            assert(texts(lines@) =~= before.push(SummaryService::line_text(messages@[i - 1])));
        }
        let mut prompt =
            "Summarize this conversation in 2-3 sentences, focusing on key topics and any important facts learned about the user:\n\n".to_owned();
        prompt.append(join(&lines, "\n").as_str());
        prompt.append("\n\nSummary:");
        prompt
    }

    /// The summary of the stretch `range` of the chain with the text
    /// `content`: it covers the stretch from its first to its last message,
    /// counts its messages, and carries the token estimate of its text.
    pub fn create(
        messages: &Vec<Message>,
        range: SummaryRange,
        conversation_id: &str,
        content: &str,
        id: String,
        now: i64,
    ) -> (summary: ConversationSummary)
        requires
            range.start < range.end <= messages@.len(),
        ensures
            summary.id == id,
            summary.conversation_id@ == conversation_id@,
            summary.content@ == content@,
            summary.message_range_start == Some(messages@[range.start as int].id),
            summary.message_range_end == Some(messages@[range.end - 1].id),
            summary.message_count == if range.end - range.start > i32::MAX {
                i32::MAX as int
            } else {
                range.end - range.start
            },
            summary.token_count == estimated_tokens(content@),
            summary.created_at == now,
    {
        let count = range.end - range.start;
        ConversationSummary {
            id,
            conversation_id: conversation_id.to_owned(),
            content: content.to_owned(),
            message_range_start: Some(messages[range.start].id.clone()),
            message_range_end: Some(messages[range.end - 1].id.clone()),
            message_count: if count > 0x7fff_ffff {
                i32::MAX
            } else {
                count as i32
            },
            token_count: estimate_tokens(content),
            created_at: now,
        }
    }

    /// How many of the summaries, newest first, fit into the budget: the
    /// summaries are walked in order, and the walk ends at the first that
    /// does not fit.
    pub open spec fn fitting(summaries: Seq<ConversationSummary>, budget: int, n: int, used: int) -> int
        decreases summaries.len() - n,
    {
        if n < 0 || n >= summaries.len() {
            n
        } else if used + summaries[n].token_count > budget {
            n
        } else {
            SummaryService::fitting(summaries, budget, n + 1, used + summaries[n].token_count)
        }
    }

    /// The summaries of a conversation that fit into the budget, in the
    /// order of their creation. `newest_first` holds the summaries of the
    /// conversation, the newest first.
    pub fn get_for_conversation(newest_first: &Vec<ConversationSummary>, token_budget: i32) -> (result:
        Vec<ConversationSummary>)
        ensures
            result@.len() == SummaryService::fitting(newest_first@, token_budget as int, 0, 0),
            forall|k: int|
                0 <= k < result@.len() ==> #[trigger] result@[k] == newest_first@[result@.len() - 1
                    - k],
    {
        let mut n: usize = 0;
        let mut used: i128 = 0;
        while n < newest_first.len()
            invariant_except_break
                SummaryService::fitting(newest_first@, token_budget as int, 0, 0)
                    == SummaryService::fitting(
                    newest_first@,
                    token_budget as int,
                    n as int,
                    used as int,
                ),
            invariant
                n <= newest_first.len(),
                -0x8000_0000 * n <= used <= 0x8000_0000 * n,
            ensures
                n == SummaryService::fitting(newest_first@, token_budget as int, 0, 0),
                n <= newest_first.len(),
            decreases newest_first.len() - n,
        {
            let tokens = newest_first[n].token_count as i128;
            if used + tokens > token_budget as i128 {
                break;
            }
            used = used + tokens;
            n += 1;
        }
        let mut result: Vec<ConversationSummary> = Vec::new();
        let mut k: usize = n;
        while k > 0
            invariant
                k <= n <= newest_first.len(),
                result@.len() == n - k,
                forall|j: int|
                    0 <= j < result@.len() ==> #[trigger] result@[j] == newest_first@[n - 1 - j],
            decreases k,
        {
            k -= 1;
            result.push(newest_first[k].copy());
        }
        result
    }

    /// Decides whether the conversation is due for a summary after a turn.
    /// Where it is, the result holds the stretch of the active chain behind
    /// what the newest summary covers that is to be summarized, and the
    /// prompt that asks the model for its summary.
    pub fn maybe_summarize(
        messages: &Vec<Message>,
        newest_first: &Vec<ConversationSummary>,
        message_threshold: i32,
        token_threshold: i32,
    ) -> (due: Option<(SummaryRange, String)>)
        ensures
            match due {
                Some((r, prompt)) => due_range(
                    messages@,
                    opt_text(
                        if newest_first@.len() > 0 {
                            newest_first@[0].message_range_end
                        } else {
                            None
                        },
                    ),
                    message_threshold as int,
                    token_threshold as int,
                ) == Some((r.start as int, r.end as int)) && r.start < r.end <= messages@.len()
                    && prompt@ == SummaryService::prompt_text(
                    messages@,
                    r.start as int,
                    r.end as int,
                ),
                None => due_range(
                    messages@,
                    opt_text(
                        if newest_first@.len() > 0 {
                            newest_first@[0].message_range_end
                        } else {
                            None
                        },
                    ),
                    message_threshold as int,
                    token_threshold as int,
                ) is None,
            },
    {
        let last = SummaryService::last_summarized_id(newest_first);
        let last_id: Option<&str> = match &last {
            Some(id) => Some(id.as_str()),
            None => None,
        };
        match SummaryService::plan(messages, last_id, message_threshold, token_threshold) {
            Some(range) => {
                let prompt = SummaryService::prompt(messages, range);
                Some((range, prompt))
            },
            None => None,
        }
    }

    /// Removes the summaries of the conversation `conversation_id`. The
    /// summaries of other conversations stay, in their order.
    pub fn delete_for_conversation(summaries: &mut Vec<ConversationSummary>, conversation_id: &str)
        ensures
            final(summaries)@ == without_conversation(old(summaries)@, conversation_id@),
    {
        let all = summaries.split_off(0);
        let ghost before = all@;
        assert(before =~= old(summaries)@);
        assert(summaries@ =~= Seq::<ConversationSummary>::empty());
        for summary in it: all
            invariant
                it.seq() == before,
                summaries@ == without_conversation(before.take(it.index()), conversation_id@),
        {
            proof {
                let upto = before.take(it.index() + 1);
                assert(upto.drop_last() =~= before.take(it.index()));
                assert(upto.last() == summary);
            }
            if !str_eq(summary.conversation_id.as_str(), conversation_id) {
                summaries.push(summary);
            }
        }
        proof {
            assert(before.take(before.len() as int) =~= before);
        }
    }

    /// The id of the last message that the newest summary covers.
    pub fn last_summarized_id(newest_first: &Vec<ConversationSummary>) -> (id: Option<String>)
        ensures
            id == if newest_first@.len() > 0 {
                newest_first@[0].message_range_end
            } else {
                None
            },
    {
        if newest_first.len() > 0 {
            clone_opt(&newest_first[0].message_range_end)
        } else {
            None
        }
    }
}

} // verus!
