//! How the settings of a caller and of a worker pool are chosen among what
//! the command line, the environment and the defaults give.

use vstd::prelude::*;
use vstd::string::*;
use crate::number::{parse_i64, parse_u64, parsed_i64, parsed_u64};
use crate::palette::MAX_SLOTS;
use crate::views::opt_text;
use crate::worker::WorkerSlot;

verus! {

/// The value of a setting: what the command line gives, else what the
/// environment gives, else the default.
pub open spec fn resolved(
    command_line: Option<Seq<char>>,
    environment: Option<Seq<char>>,
    default: Seq<char>,
) -> Seq<char> {
    match command_line {
        Some(value) => value,
        None => match environment {
            Some(value) => value,
            None => default,
        },
    }
}

/// Chooses the value of a setting.
pub fn resolve(command_line: Option<String>, environment: Option<String>, default: &str) -> (value:
    String)
    ensures
        value@ == resolved(
            opt_text(command_line),
            opt_text(environment),
            default@,
        ),
{
    match command_line {
        Some(value) => value,
        None => match environment {
            Some(value) => value,
            None => String::from_str(default),
        },
    }
}

/// What a caller is told where a setting that has no default is missing.
pub open spec fn missing_setting_message(what: Seq<char>, variable: Seq<char>, flag: Seq<char>) -> Seq<
    char,
> {
    what + " should not be empty, please set it via env "@ + variable + " or pass it by --"@ + flag
        + " <"@ + flag + ">"@
}

/// Checks a setting that has no default: the value where it is not empty,
/// else what to tell the caller.
pub fn require(value: String, what: &str, variable: &str, flag: &str) -> (r: Result<String, String>)
    ensures
        match r {
            Ok(v) => value@.len() > 0 && v == value,
            Err(message) => value@.len() == 0 && message@ == missing_setting_message(
                what@,
                variable@,
                flag@,
            ),
        },
{
    if value.as_str().unicode_len() > 0 {
        Ok(value)
    } else {
        Err(
            String::from_str(what).concat(" should not be empty, please set it via env ").concat(
                variable,
            ).concat(" or pass it by --").concat(flag).concat(" <").concat(flag).concat(">"),
        )
    }
}

/// The number of seconds that a text gives for a wait: a natural number of
/// 64 bits in decimal notation.
pub open spec fn timeout_of(text: Seq<char>) -> Option<u64> {
    parsed_u64(text)
}

/// Reads the number of seconds of a wait.
pub fn parse_timeout(text: &str) -> (r: Option<u64>)
    ensures
        r == timeout_of(text@),
{
    parse_u64(text)
}

/// The number of slots of a pool that is asked to have `thread_num`: none
/// for a number below one, and no more than have a colour of their own.
pub open spec fn slot_count(thread_num: int) -> nat {
    if thread_num <= 0 {
        0
    } else if thread_num >= MAX_SLOTS {
        MAX_SLOTS as nat
    } else {
        thread_num as nat
    }
}

/// The number of slots that a text asks for; `None` where the text is no
/// number.
pub open spec fn thread_num_of(text: Seq<char>) -> Option<nat> {
    match parsed_i64(text) {
        Some(n) => Some(slot_count(n as int)),
        None => None,
    }
}

/// Makes the slots of a pool, which are fixed from then on: slot `i` has
/// the index `i` and works under `worker_dir`.
pub fn plan_slots(thread_num: i64, worker_dir: &str) -> (slots: Vec<WorkerSlot>)
    ensures
        slots.len() == slot_count(thread_num as int),
        forall|i: int|
            0 <= i < slots.len() ==> (#[trigger] slots@[i]).slot_index == i && slots@[i].worker_dir@
                == worker_dir@,
{
    let mut slots: Vec<WorkerSlot> = Vec::new();
    let mut i: u8 = 0;
    while i < MAX_SLOTS && (i as i64) < thread_num
        invariant
            i <= MAX_SLOTS,
            i <= slot_count(thread_num as int),
            slots.len() == i,
            forall|j: int|
                0 <= j < slots.len() ==> (#[trigger] slots@[j]).slot_index == j
                    && slots@[j].worker_dir@ == worker_dir@,
        decreases MAX_SLOTS - i,
    {
        slots.push(WorkerSlot { slot_index: i, worker_dir: String::from_str(worker_dir) });
        i += 1;
    }
    slots
}

/// Makes the slots of a pool from the text that says how many.
pub fn plan_slots_from(thread_num: &str, worker_dir: &str) -> (r: Option<Vec<WorkerSlot>>)
    ensures
        match r {
            Some(slots) => thread_num_of(thread_num@) == Some(slots.len() as nat) && forall|i: int|
                0 <= i < slots.len() ==> (#[trigger] slots@[i]).slot_index == i
                    && slots@[i].worker_dir@ == worker_dir@,
            None => thread_num_of(thread_num@) is None,
        },
{
    match parse_i64(thread_num) {
        Some(n) => Some(plan_slots(n, worker_dir)),
        None => None,
    }
}

} // verus!
