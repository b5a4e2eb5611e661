//! Driver permissions: requests of single commands are gathered into one
//! entry for each driver and 64-bit word of command numbers.

use crate::header::TbfHeaderDriverPermission;
use vstd::prelude::*;

verus! {

/// The bit that stands for `command` inside its word.
pub open spec fn command_bit(command: u32) -> u64 {
    1u64 << ((command % 64) as u64)
}

/// Whether `entry` is the entry for `driver` and the word that holds
/// `command`.
pub open spec fn same_word(entry: TbfHeaderDriverPermission, driver: u32, command: u32) -> bool {
    entry.driver_number == driver && entry.offset == command / 64
}

/// Whether `perms` has an entry for `driver` and the word that holds
/// `command`.
pub open spec fn has_word(perms: Seq<TbfHeaderDriverPermission>, driver: u32, command: u32) -> bool {
    exists|i: int| 0 <= i < perms.len() && same_word(#[trigger] perms[i], driver, command)
}

/// `entry` with the bit of `command` set, where it is the entry for that
/// driver and word.
pub open spec fn allow(
    entry: TbfHeaderDriverPermission,
    driver: u32,
    command: u32,
) -> TbfHeaderDriverPermission {
    if same_word(entry, driver, command) {
        TbfHeaderDriverPermission {
            driver_number: entry.driver_number,
            offset: entry.offset,
            allowed_commands: entry.allowed_commands | command_bit(command),
        }
    } else {
        entry
    }
}

/// The entry that allows `command` of `driver` and nothing else.
pub open spec fn single(driver: u32, command: u32) -> TbfHeaderDriverPermission {
    TbfHeaderDriverPermission {
        driver_number: driver,
        offset: (command / 64) as u32,
        allowed_commands: command_bit(command),
    }
}

/// `perms` after one request: the bit is set in the entry for that driver
/// and word, or a new entry is added at the end where there is none.
pub open spec fn merge_one(
    perms: Seq<TbfHeaderDriverPermission>,
    driver: u32,
    command: u32,
) -> Seq<TbfHeaderDriverPermission> {
    if has_word(perms, driver, command) {
        Seq::new(perms.len(), |i: int| allow(perms[i], driver, command))
    } else {
        perms.push(single(driver, command))
    }
}

/// The entries that a list of requests, each a driver number and a command
/// number, comes to.
pub open spec fn merge_all(requests: Seq<(u32, u32)>) -> Seq<TbfHeaderDriverPermission>
    decreases requests.len(),
{
    if requests.len() == 0 {
        Seq::empty()
    } else {
        merge_one(merge_all(requests.drop_last()), requests.last().0, requests.last().1)
    }
}

/// No two entries stand for the same driver and word.
pub open spec fn distinct_words(perms: Seq<TbfHeaderDriverPermission>) -> bool {
    forall|i: int, j: int|
        0 <= i < perms.len() && 0 <= j < perms.len() && i != j ==> !(#[trigger] perms[i].driver_number
            == #[trigger] perms[j].driver_number && perms[i].offset == perms[j].offset)
}

/// Whether `perms` allows `command` of `driver`.
pub open spec fn allows(perms: Seq<TbfHeaderDriverPermission>, driver: u32, command: u32) -> bool {
    exists|i: int|
        0 <= i < perms.len() && same_word(#[trigger] perms[i], driver, command)
            && perms[i].allowed_commands & command_bit(command) != 0
}

/// A request for a driver and word that has an entry changes that entry
/// alone, by or-ing the bit of the command into its mask; a request for a
/// driver and word that has none adds an entry and leaves the others as they
/// are. Either way no two entries come to stand for the same driver and
/// word.
pub proof fn lemma_merge_one(
    perms: Seq<TbfHeaderDriverPermission>,
    driver: u32,
    command: u32,
)
    requires
        distinct_words(perms),
    ensures
        distinct_words(merge_one(perms, driver, command)),
        forall|i: int|
            0 <= i < perms.len() && same_word(#[trigger] perms[i], driver, command) ==> merge_one(
                perms,
                driver,
                command,
            ) == perms.update(
                i,
                TbfHeaderDriverPermission {
                    driver_number: driver,
                    offset: (command / 64) as u32,
                    allowed_commands: perms[i].allowed_commands | command_bit(command),
                },
            ),
        !has_word(perms, driver, command) ==> merge_one(perms, driver, command) == perms.push(
            single(driver, command),
        ),
{
    let merged = merge_one(perms, driver, command);
    assert forall|i: int|
        0 <= i < perms.len() && same_word(#[trigger] perms[i], driver, command) implies merged
        == perms.update(
        i,
        TbfHeaderDriverPermission {
            driver_number: driver,
            offset: (command / 64) as u32,
            allowed_commands: perms[i].allowed_commands | command_bit(command),
        },
    ) by {
        let updated = perms.update(
            i,
            TbfHeaderDriverPermission {
                driver_number: driver,
                offset: (command / 64) as u32,
                allowed_commands: perms[i].allowed_commands | command_bit(command),
            },
        );
        assert forall|k: int| 0 <= k < perms.len() implies merged[k] == updated[k] by {
            if k != i {
                assert(!(perms[k].driver_number == perms[i].driver_number && perms[k].offset
                    == perms[i].offset));
            }
        }
        assert(merged =~= updated);
    }
    if has_word(perms, driver, command) {
        assert forall|i: int, j: int|
            0 <= i < merged.len() && 0 <= j < merged.len() && i != j implies !(
        #[trigger] merged[i].driver_number == #[trigger] merged[j].driver_number && merged[i].offset
            == merged[j].offset) by {
            assert(!(perms[i].driver_number == perms[j].driver_number && perms[i].offset
                == perms[j].offset));
        }
    } else {
        assert forall|i: int, j: int|
            0 <= i < merged.len() && 0 <= j < merged.len() && i != j implies !(
        #[trigger] merged[i].driver_number == #[trigger] merged[j].driver_number && merged[i].offset
            == merged[j].offset) by {
            if i < perms.len() && j < perms.len() {
                assert(!(perms[i].driver_number == perms[j].driver_number && perms[i].offset
                    == perms[j].offset));
            } else if i < perms.len() {
                assert(!same_word(perms[i], driver, command));
            } else {
                assert(!same_word(perms[j], driver, command));
            }
        }
    }
}

/// The entries that any list of requests comes to hold each driver and word
/// once.
pub proof fn lemma_merge_all_distinct(requests: Seq<(u32, u32)>)
    ensures
        distinct_words(merge_all(requests)),
    decreases requests.len(),
{
    if requests.len() > 0 {
        lemma_merge_all_distinct(requests.drop_last());
        lemma_merge_one(merge_all(requests.drop_last()), requests.last().0, requests.last().1);
    }
}

proof fn lemma_bits(mask: u64, a: u32, b: u32)
    ensures
        command_bit(a) & command_bit(b) != 0 <==> a % 64 == b % 64,
        (mask | command_bit(a)) & command_bit(b) != 0 <==> (mask & command_bit(b) != 0 || a % 64 == b
            % 64),
{
    let x: u64 = (a % 64) as u64;
    let y: u64 = (b % 64) as u64;
    assert(((1u64 << x) & (1u64 << y) != 0) <==> x == y) by (bit_vector)
        requires
            x < 64,
            y < 64,
    ;
    assert(((mask | (1u64 << x)) & (1u64 << y) != 0) <==> ((mask & (1u64 << y) != 0) || x == y))
        by (bit_vector)
        requires
            x < 64,
            y < 64,
    ;
}

/// One more request allows its own command and changes nothing else.
pub proof fn lemma_merge_one_allows(
    perms: Seq<TbfHeaderDriverPermission>,
    driver: u32,
    command: u32,
    other_driver: u32,
    other_command: u32,
)
    ensures
        allows(merge_one(perms, driver, command), other_driver, other_command) <==> (allows(
            perms,
            other_driver,
            other_command,
        ) || (driver == other_driver && command == other_command)),
{
    let merged = merge_one(perms, driver, command);
    let same_request = driver == other_driver && command == other_command;
    assert(command == other_command <==> (command / 64 == other_command / 64 && command % 64
        == other_command % 64));
    if allows(merged, other_driver, other_command) {
        let i = choose|i: int|
            0 <= i < merged.len() && same_word(#[trigger] merged[i], other_driver, other_command)
                && merged[i].allowed_commands & command_bit(other_command) != 0;
        if i < perms.len() {
            lemma_bits(perms[i].allowed_commands, command, other_command);
            if !same_request {
                assert(same_word(perms[i], other_driver, other_command));
                assert(perms[i].allowed_commands & command_bit(other_command) != 0);
            }
        } else {
            lemma_bits(0, command, other_command);
        }
    }
    if allows(perms, other_driver, other_command) {
        let i = choose|i: int|
            0 <= i < perms.len() && same_word(#[trigger] perms[i], other_driver, other_command)
                && perms[i].allowed_commands & command_bit(other_command) != 0;
        lemma_bits(perms[i].allowed_commands, command, other_command);
        assert(same_word(merged[i], other_driver, other_command));
        assert(merged[i].allowed_commands & command_bit(other_command) != 0);
    }
    if same_request {
        if has_word(perms, driver, command) {
            let i = choose|i: int|
                0 <= i < perms.len() && same_word(#[trigger] perms[i], driver, command);
            lemma_bits(perms[i].allowed_commands, command, command);
            assert(same_word(merged[i], driver, command));
            assert(merged[i].allowed_commands & command_bit(command) != 0);
        } else {
            let i = perms.len() as int;
            lemma_bits(0, command, command);
            assert(same_word(merged[i], driver, command));
            assert(merged[i].allowed_commands & command_bit(command) != 0);
        }
    }
}

/// The entries allow exactly the commands that were requested.
pub proof fn lemma_merge_all_allows(requests: Seq<(u32, u32)>, driver: u32, command: u32)
    ensures
        allows(merge_all(requests), driver, command) <==> requests.contains((driver, command)),
    decreases requests.len(),
{
    if requests.len() > 0 {
        let front = requests.drop_last();
        let last = requests.last();
        lemma_merge_all_allows(front, driver, command);
        lemma_merge_one_allows(merge_all(front), last.0, last.1, driver, command);
        if requests.contains((driver, command)) {
            let k = choose|k: int| 0 <= k < requests.len() && requests[k] == (driver, command);
            if k < front.len() {
                assert(front[k] == (driver, command));
            }
        }
        if front.contains((driver, command)) {
            let k = choose|k: int| 0 <= k < front.len() && front[k] == (driver, command);
            assert(requests[k] == (driver, command));
        }
        if last == (driver, command) {
            assert(requests[requests.len() - 1] == (driver, command));
        }
    }
}

/// Gathers requests of single commands into one entry for each driver and
/// word, in the order in which each driver and word is first asked for.
pub fn merge_permissions(permissions: &Vec<(u32, u32)>) -> (perms: Vec<TbfHeaderDriverPermission>)
    ensures
        perms@ == merge_all(permissions@),
{
    let mut perms: Vec<TbfHeaderDriverPermission> = Vec::new();
    let mut index: usize = 0;
    while index < permissions.len()
        invariant
            index <= permissions@.len(),
            perms@ == merge_all(permissions@.take(index as int)),
        decreases permissions@.len() - index,
    {
        let driver: u32 = permissions[index].0;
        let command: u32 = permissions[index].1;
        let offset: u32 = command / 64;
        let allowed_command: u64 = 1u64 << ((command % 64) as u64);
        let ghost before = perms@;
        let mut complete: bool = false;
        let mut at: usize = 0;
        while at < perms.len()
            invariant
                at <= perms@.len(),
                perms@.len() == before.len(),
                offset == command / 64,
                allowed_command == command_bit(command),
                forall|k: int| 0 <= k < at ==> perms@[k] == allow(before[k], driver, command),
                forall|k: int| at <= k < perms@.len() ==> perms@[k] == before[k],
                complete <==> exists|k: int|
                    0 <= k < at && same_word(#[trigger] before[k], driver, command),
            decreases perms@.len() - at,
        {
            let entry: TbfHeaderDriverPermission = perms[at];
            assert(entry == before[at as int]);
            if entry.driver_number == driver && entry.offset == offset {
                perms[at] = TbfHeaderDriverPermission {
                    driver_number: entry.driver_number,
                    offset: entry.offset,
                    allowed_commands: entry.allowed_commands | allowed_command,
                };
                complete = true;
            }
            at += 1;
        }
        if !complete {
            perms.push(
                TbfHeaderDriverPermission {
                    driver_number: driver,
                    offset: offset,
                    allowed_commands: allowed_command,
                },
            );
        }
        proof {
            let taken = permissions@.take(index + 1);
            assert(taken.drop_last() =~= permissions@.take(index as int));
            assert(taken.last() == permissions@[index as int]);
            assert(perms@ =~= merge_one(before, driver, command));
        }
        index += 1;
    }
    assert(permissions@.take(index as int) =~= permissions@);
    perms
}

} // verus!
