//! The chat view: which messages are drawn as one group, and how the age of
//! a message is written.

use vstd::prelude::*;
use vstd::string::*;
use crate::text::{decimal, push_decimal};

verus! {

/// How many seconds may lie between two messages of one group.
pub const GROUP_WINDOW_SECS: u64 = 300;

/// What grouping reads of a message.
#[derive(Debug, Clone, Copy, PartialEq, Eq)]
pub struct MessageHead {
    /// The public key of the author.
    pub author: [u8; 32],
    /// When the message was written, in seconds since 1970.
    pub created_at: u64,
}

/// The distance between two times.
pub open spec fn time_between(a: u64, b: u64) -> int {
    if a <= b {
        b - a
    } else {
        a - b
    }
}

/// A message goes on the group of the message drawn before it where both
/// have the same author and less than five minutes lie between them.
pub open spec fn continues_group(last: Option<MessageHead>, next: MessageHead) -> bool {
    match last {
        Some(before) => before.author == next.author && time_between(
            before.created_at,
            next.created_at,
        ) < GROUP_WINDOW_SECS,
        None => false,
    }
}

/// Whether the message at `index` begins a group, and so is drawn with its
/// author's name and picture.
pub open spec fn starts_group(messages: Seq<MessageHead>, index: int) -> bool {
    !continues_group(
        if index == 0 {
            None
        } else {
            Some(messages[index - 1])
        },
        messages[index],
    )
}

/// Whether two keys are the same.
fn same_author(a: &[u8; 32], b: &[u8; 32]) -> (same: bool)
    ensures
        same == (*a == *b),
{
    let mut i: usize = 0;
    while i < 32
        invariant
            i <= 32,
            forall|j: int| 0 <= j < i ==> a@[j] == b@[j],
        decreases 32 - i,
    {
        if a[i] != b[i] {
            return false;
        }
        i += 1;
    }
    assert(*a =~= *b);
    true
}

/// Whether a message goes on the group of the message drawn before it.
pub fn same_group(last: &Option<MessageHead>, next: &MessageHead) -> (same: bool)
    ensures
        same == continues_group(*last, *next),
{
    match last {
        Some(before) => {
            let between = if before.created_at <= next.created_at {
                next.created_at - before.created_at
            } else {
                before.created_at - next.created_at
            };
            same_author(&before.author, &next.author) && between < GROUP_WINDOW_SECS
        },
        None => false,
    }
}

/// For each message, in the order in which they are drawn, whether it
/// begins a group.
pub fn group_starts(messages: &Vec<MessageHead>) -> (starts: Vec<bool>)
    ensures
        starts.len() == messages.len(),
        forall|i: int| 0 <= i < messages.len() ==> starts@[i] == starts_group(messages@, i),
{
    let mut starts: Vec<bool> = Vec::new();
    let mut last: Option<MessageHead> = None;
    let mut i: usize = 0;
    while i < messages.len()
        invariant
            i <= messages.len(),
            starts.len() == i,
            last == if i == 0 {
                None::<MessageHead>
            } else {
                Some(messages@[i - 1])
            },
            forall|j: int| 0 <= j < i ==> starts@[j] == starts_group(messages@, j),
        decreases messages.len() - i,
    {
        let next = messages[i];
        starts.push(!same_group(&last, &next));
        last = Some(next);
        i += 1;
    }
    starts
}

/// Of what was asked for so far in a frame and what is asked for next, the
/// first counts.
pub fn keep_first<T>(current: Option<T>, next: Option<T>) -> (kept: Option<T>)
    ensures
        kept == if current is Some {
            current
        } else {
            next
        },
{
    if current.is_some() {
        current
    } else {
        next
    }
}

/// The words from which the age of a message is written, in the user's
/// language.
#[derive(Debug, Clone)]
pub struct TimeLabels {
    /// Said where the clock cannot be read.
    pub unknown_time: String,
    /// Said of less than a minute.
    pub just_now: String,
    /// Follows a span of time.
    pub ago: String,
    /// Said of one day.
    pub yesterday: String,
    /// Follows a number of days above six.
    pub days: String,
}

/// [`TimeLabels`] as mathematical values.
pub struct TimeLabelsView {
    pub unknown_time: Seq<char>,
    pub just_now: Seq<char>,
    pub ago: Seq<char>,
    pub yesterday: Seq<char>,
    pub days: Seq<char>,
}

impl View for TimeLabels {
    type V = TimeLabelsView;

    open spec fn view(&self) -> TimeLabelsView {
        TimeLabelsView {
            unknown_time: self.unknown_time@,
            just_now: self.just_now@,
            ago: self.ago@,
            yesterday: self.yesterday@,
            days: self.days@,
        }
    }
}

/// The seconds from `created_at` to `now`; none where `now` is the earlier.
pub open spec fn age(created_at: u64, now: u64) -> nat {
    if now >= created_at {
        (now - created_at) as nat
    } else {
        0
    }
}

/// A number, a unit's letter, a space, and the word that follows a span.
pub open spec fn span_text(count: nat, unit: char, ago: Seq<char>) -> Seq<char> {
    decimal(count) + seq![unit, ' '] + ago
}

/// How the age of a message is written, `now` being the seconds since 1970
/// where the clock could be read: whole minutes below an hour, whole hours
/// below a day, whole days from the second day on.
pub open spec fn relative_time(created_at: u64, now: Option<u64>, labels: TimeLabelsView) -> Seq<
    char,
> {
    match now {
        None => labels.unknown_time,
        Some(now) => {
            let diff = age(created_at, now);
            if diff < 60 {
                labels.just_now
            } else if diff < 3600 {
                span_text(diff / 60, 'm', labels.ago)
            } else if diff < 86400 {
                span_text(diff / 3600, 'h', labels.ago)
            } else if diff < 172800 {
                labels.yesterday
            } else if diff < 604800 {
                span_text(diff / 86400, 'd', labels.ago)
            } else {
                decimal(diff / 86400) + seq![' '] + labels.days + seq![' '] + labels.ago
            }
        },
    }
}

/// A number, a unit and the word that follows a span.
fn span(count: u64, unit: &str, ago: &str) -> (text: String)
    ensures
        text@ == decimal(count as nat) + unit@ + ago@,
{
    let mut text = String::new();
    push_decimal(&mut text, count);
    text.append(unit);
    text.append(ago);
    assert(text@ =~= decimal(count as nat) + unit@ + ago@);
    text
}

/// How the age of a message is written at the time `now`, the seconds
/// since 1970, or where the clock cannot be read.
pub fn format_timestamp(created_at: u64, now: Option<u64>, labels: &TimeLabels) -> (text: String)
    ensures
        text@ == relative_time(created_at, now, labels@),
{
    let now = match now {
        Some(now) => now,
        None => {
            return labels.unknown_time.clone();
        },
    };
    let diff = now.saturating_sub(created_at);
    proof {
        reveal_strlit("m ");
        reveal_strlit("h ");
        reveal_strlit("d ");
        reveal_strlit(" ");
        assert("m "@ =~= seq!['m', ' ']);
        assert("h "@ =~= seq!['h', ' ']);
        assert("d "@ =~= seq!['d', ' ']);
        assert(" "@ =~= seq![' ']);
    }
    if diff < 60 {
        labels.just_now.clone()
    } else if diff < 3600 {
        span(diff / 60, "m ", labels.ago.as_str())
    } else if diff < 86400 {
        span(diff / 3600, "h ", labels.ago.as_str())
    } else if diff < 172800 {
        labels.yesterday.clone()
    } else if diff < 604800 {
        span(diff / 86400, "d ", labels.ago.as_str())
    } else {
        let mut text = String::new();
        push_decimal(&mut text, diff / 86400);
        text.append(" ");
        text.append(labels.days.as_str());
        text.append(" ");
        text.append(labels.ago.as_str());
        assert(text@ =~= decimal((diff / 86400) as nat) + seq![' '] + labels.days@ + seq![' ']
            + labels.ago@);
        text
    }
}

} // verus!
