//! Whether an input table has no rows.
use vstd::prelude::*;

use crate::answers::which_inputs_are_accepted;
use crate::error::{joined, ExternalError};

verus! {

/// What came of scanning an input table.
#[derive(Debug)]
pub enum ScanReply<D> {
    /// The scan could not be planned, for this reason.
    ScanFailed(String),
    /// What came of each partition of the planned scan, in order.
    Partitions(Vec<PartitionReply<D>>),
}

/// What came of one partition of a scan.
#[derive(Debug)]
pub enum PartitionReply<D> {
    /// The partition could not be started, for this reason.
    ExecuteFailed(String),
    /// The batches that came out: the number of rows of each, or why it could
    /// not be read.
    Batches(Vec<Result<usize, D>>),
}

/// Whether a batch was read and has rows in it.
pub open spec fn has_rows<D>(batch: Result<usize, D>) -> bool {
    batch matches Ok(rows) && rows > 0
}

/// Whether some batch was read and has rows in it.
pub open spec fn has_data<D>(batches: Seq<Result<usize, D>>) -> bool {
    exists|i: int| 0 <= i < batches.len() && has_rows(#[trigger] batches[i])
}

/// Why the input is refused on account of one partition, if it is: the
/// partition could not be started, or a batch that could be read has rows in it.
/// A batch that could not be read counts for nothing.
pub open spec fn partition_refusal<D>(partition: PartitionReply<D>) -> Option<Seq<char>> {
    match partition {
        PartitionReply::ExecuteFailed(reason) => Some("Failed to execute scan: "@ + reason@),
        PartitionReply::Batches(batches) => if has_data(batches@) {
            Some("register_table does not support tables with data."@)
        } else {
            None
        },
    }
}

/// Why the input is refused on account of its partitions, if it is: the first
/// of them that speaks against it decides.
pub open spec fn first_refusal<D>(partitions: Seq<PartitionReply<D>>) -> Option<Seq<char>>
    decreases partitions.len(),
{
    if partitions.len() == 0 {
        None
    } else {
        match first_refusal(partitions.drop_last()) {
            Some(message) => Some(message),
            None => partition_refusal(partitions.last()),
        }
    }
}

/// Why the input is refused, if it is: it could not be scanned, or a partition
/// speaks against it.
pub open spec fn refusal<D>(reply: ScanReply<D>) -> Option<Seq<char>> {
    match reply {
        ScanReply::ScanFailed(reason) => Some("Failed to scan table: "@ + reason@),
        ScanReply::Partitions(partitions) => first_refusal(partitions@),
    }
}

/// The first partition that speaks against an input gives the reason for the
/// refusal, whatever comes of the partitions after it.
pub proof fn first_refusing_partition_decides<D>(partitions: Seq<PartitionReply<D>>, first: int)
    requires
        0 <= first < partitions.len(),
        partition_refusal(partitions[first]) is Some,
        forall|i: int| 0 <= i < first ==> partition_refusal(#[trigger] partitions[i]) is None,
    ensures
        first_refusal(partitions) == partition_refusal(partitions[first]),
    decreases partitions.len(),
{
    let front = partitions.drop_last();
    if first < front.len() {
        assert(front[first] == partitions[first]);
        assert forall|i: int| 0 <= i < first implies partition_refusal(#[trigger] front[i]) is None by {
            assert(front[i] == partitions[i]);
        }
        first_refusing_partition_decides(front, first);
    } else {
        assert forall|i: int| 0 <= i < front.len() implies partition_refusal(
            #[trigger] front[i],
        ) is None by {
            assert(front[i] == partitions[i]);
        }
        accepted_if_no_partition_refuses(front);
    }
}

/// The partitions of an input give no reason to refuse it if and only if none of
/// them speaks against it.
pub proof fn accepted_if_no_partition_refuses<D>(partitions: Seq<PartitionReply<D>>)
    ensures
        first_refusal(partitions) is None <==> forall|i: int|
            0 <= i < partitions.len() ==> partition_refusal(#[trigger] partitions[i]) is None,
    decreases partitions.len(),
{
    if partitions.len() > 0 {
        let front = partitions.drop_last();
        accepted_if_no_partition_refuses(front);
        assert(forall|i: int| 0 <= i < front.len() ==> #[trigger] front[i] == partitions[i]);
        assert(partitions.last() == partitions[partitions.len() - 1]);
        if first_refusal(partitions) is None {
            assert forall|i: int| 0 <= i < partitions.len() implies partition_refusal(
                #[trigger] partitions[i],
            ) is None by {
                if i < front.len() {
                    assert(partition_refusal(front[i]) is None);
                }
            }
        }
        if forall|i: int|
            0 <= i < partitions.len() ==> partition_refusal(#[trigger] partitions[i]) is None {
            assert forall|i: int| 0 <= i < front.len() implies partition_refusal(
                #[trigger] front[i],
            ) is None by {
                assert(front[i] == partitions[i]);
            }
        }
    }
}

/// What one partition has to say against the input.
fn check_partition<D>(partition: &PartitionReply<D>) -> (against: Option<String>)
    ensures
        match partition_refusal(*partition) {
            Some(message) => against matches Some(text) && text@ == message,
            None => against is None,
        },
{
    let batches: &Vec<Result<usize, D>> = match partition {
        PartitionReply::ExecuteFailed(reason) => {
            return Some(joined("Failed to execute scan: ", reason.as_str()));
        },
        PartitionReply::Batches(batches) => batches,
    };
    let mut i: usize = 0;
    while i < batches.len()
        invariant
            i <= batches.len(),
            *partition == PartitionReply::Batches(*batches),
            forall|k: int| 0 <= k < i ==> !has_rows(#[trigger] batches@[k]),
        decreases batches.len() - i,
    {
        let filled: bool = match &batches[i] {
            Ok(rows) => *rows > 0,
            Err(_) => false,
        };
        if filled {
            proof {
                assert(has_rows(batches@[i as int]));
                assert(has_data(batches@));
            }
            return Some("register_table does not support tables with data.".to_owned());
        }
        i = i + 1;
    }
    None
}

/// Accepts an input that has no rows.
pub fn ensure_table_is_empty<D, E>(reply: ScanReply<D>) -> (checked: Result<(), ExternalError<E>>)
    ensures
        match refusal(reply) {
            Some(message) => checked matches Err(error) && error.is_unexpected(message),
            None => checked == Ok::<(), ExternalError<E>>(()),
        },
        checked is Ok <==> (reply matches ScanReply::Partitions(partitions) && forall|i: int|
            0 <= i < partitions@.len() ==> (#[trigger] partitions@[i] matches PartitionReply::Batches(
                batches,
            ) && forall|j: int|
                0 <= j < batches@.len() ==> (#[trigger] batches@[j] matches Ok(rows) ==> rows
                    == 0))),
{
    proof {
        which_inputs_are_accepted(reply);
    }
    let partitions: Vec<PartitionReply<D>> = match reply {
        ScanReply::ScanFailed(reason) => {
            return Err(ExternalError::Unexpected(joined("Failed to scan table: ", reason.as_str())));
        },
        ScanReply::Partitions(partitions) => partitions,
    };
    let mut i: usize = 0;
    while i < partitions.len()
        invariant
            i <= partitions.len(),
            reply == ScanReply::Partitions(partitions),
            forall|k: int| 0 <= k < i ==> partition_refusal(#[trigger] partitions@[k]) is None,
        decreases partitions.len() - i,
    {
        if let Some(message) = check_partition(&partitions[i]) {
            proof {
                first_refusing_partition_decides(partitions@, i as int);
            }
            return Err(ExternalError::Unexpected(message));
        }
        i = i + 1;
    }
    proof {
        accepted_if_no_partition_refuses(partitions@);
    }
    Ok(())
}

} // verus!
