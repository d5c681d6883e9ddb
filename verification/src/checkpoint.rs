//! The checkpoint protocol contract: identities, snapshot handles, and
//! the self-describing token of the keyed processing stage.
//!
//! A handle token records which checkpoint was durably completed.  The
//! tie-break rule is that the id embedded in a handle always wins over
//! any externally tracked counter: a handle is the source of truth on
//! restart.

use vstd::prelude::*;
use crate::errors::StreamError;
use crate::text::{all_digits, digits_value, lemma_u64_digits_value, parse_u64, push_u64,
    u64_digits};

verus! {

/// The identity of one logical operator in the job graph.
#[derive(Clone, Copy, Debug, PartialEq, Eq, Structural)]
pub struct OperatorId(pub u32);

/// The identity of one physical task instance: an operator partition.
#[derive(Clone, Copy, Debug, PartialEq, Eq, Structural, Default)]
pub struct TaskId {
    pub task_number: u16,
    pub num_tasks: u16,
}

/// An opaque serialized token representing an operator's state at one
/// checkpoint.
#[derive(Clone, Debug)]
pub struct CheckpointHandle {
    pub handle: String,
}

/// What an operator receives when a barrier triggers a snapshot.
#[derive(Clone, Copy, Debug, PartialEq, Eq, Structural)]
pub struct FunctionSnapshotContext {
    pub operator_id: OperatorId,
    pub task_id: TaskId,
    pub checkpoint_id: u64,
}

/// A completed snapshot, as submitted to the checkpoint channel.
#[derive(Clone, Debug)]
pub struct Checkpoint {
    pub operator_id: OperatorId,
    pub task_id: TaskId,
    pub checkpoint_id: u64,
    pub completed_checkpoint_id: Option<u64>,
    pub handle: CheckpointHandle,
}

/// The snapshot contract every stateful operator function satisfies.
pub trait CheckpointFunction {
    /// The function's own state invariant, re-established by a restore.
    spec fn restore_inv(&self) -> bool;

    /// Whether `handle` is a snapshot this function hands back for the
    /// given context; each implementation pins its own token shape, so
    /// a caller can tie what it queues to what the snapshot returned.
    spec fn is_snapshot(
        &self,
        context: FunctionSnapshotContext,
        handle: Option<CheckpointHandle>,
    ) -> bool;

    /// Which checkpoint id to resume from, given the latest offered
    /// handle.
    fn consult_version(
        &self,
        context: &FunctionSnapshotContext,
        handle: &Option<CheckpointHandle>,
    ) -> u64;

    /// Restore from the latest offered handle, or start empty.
    fn initialize_state(
        &mut self,
        context: &FunctionSnapshotContext,
        handle: &Option<CheckpointHandle>,
    )
        ensures
            final(self).restore_inv(),
        ;

    /// Capture the operator's state at this checkpoint.
    fn snapshot_state(&self, context: &FunctionSnapshotContext) -> (r: Option<CheckpointHandle>)
        ensures
            self.is_snapshot(*context, r),
        ;
}

/// The token text of a keyed-process handle: the completed checkpoint
/// id as a decimal number, or the word `null` when none was completed.
pub open spec fn handle_token(completed: Option<u64>) -> Seq<char> {
    match completed {
        None => "{\"c_ck\":null}"@,
        Some(n) => "{\"c_ck\":"@ + u64_digits(n as nat) + "}"@,
    }
}

/// Whether a token carries a decimal id: the fixed prefix, an all-digit
/// body, and the closing brace.
pub open spec fn is_numeric_token(s: Seq<char>) -> bool {
    let p = "{\"c_ck\":"@;
    &&& s.len() >= p.len() + 2
    &&& s.take(p.len() as int) == p
    &&& s.last() == '}'
    &&& all_digits(s.subrange(p.len() as int, s.len() - 1))
}

/// The id a numeric token carries.
pub open spec fn token_value(s: Seq<char>) -> nat {
    digits_value(s.subrange("{\"c_ck\":"@.len() as int, s.len() - 1))
}

/// Whether `s` begins with `p`.
#[verifier::loop_isolation(false)]
fn str_has_prefix(s: &str, p: &str) -> (r: bool)
    ensures
        r == (s@.len() >= p@.len() && s@.take(p@.len() as int) == p@),
{
    let s_len = s.unicode_len();
    let p_len = p.unicode_len();
    if s_len < p_len {
        return false;
    }
    let mut i: usize = 0;
    while i < p_len
        invariant
            s_len == s@.len(),
            p_len == p@.len(),
            p_len <= s_len,
            i <= p_len,
            forall|j: int| 0 <= j < i ==> s@[j] == p@[j],
        decreases p_len - i,
    {
        if s.get_char(i) != p.get_char(i) {
            proof {
                assert(s@.take(p@.len() as int)[i as int] != p@[i as int]);
            }
            return false;
        }
        i = i + 1;
    }
    proof {
        assert(s@.take(p@.len() as int) =~= p@);
    }
    true
}

/// Whether `s` is exactly `p`.
fn str_equals(s: &str, p: &str) -> (r: bool)
    ensures
        r == (s@ == p@),
{
    let same = str_has_prefix(s, p);
    if same && s.unicode_len() == p.unicode_len() {
        proof {
            assert(s@.take(p@.len() as int) =~= s@);
        }
        true
    } else {
        proof {
            if s@ == p@ {
                assert(s@.take(p@.len() as int) =~= p@);
            }
        }
        false
    }
}

/// The persisted state of the keyed processing stage: which checkpoint
/// was durably completed before this one, if any.
#[derive(Clone, Copy, Debug, PartialEq, Eq, Structural, Default)]
pub struct KeyedProcessCheckpointHandle {
    pub completed_checkpoint_id: Option<u64>,
}

impl KeyedProcessCheckpointHandle {
    pub fn new(completed_checkpoint_id: Option<u64>) -> (h: KeyedProcessCheckpointHandle)
        ensures
            h.completed_checkpoint_id == completed_checkpoint_id,
    {
        KeyedProcessCheckpointHandle { completed_checkpoint_id }
    }

    /// Render this handle as its token text.
    pub fn encode(&self) -> (r: String)
        ensures
            r@ == handle_token(self.completed_checkpoint_id),
    {
        proof {
            reveal_strlit("{\"c_ck\":");
            reveal_strlit("{\"c_ck\":null}");
            reveal_strlit("null}");
            reveal_strlit("}");
        }
        let mut out = String::new();
        match self.completed_checkpoint_id {
            None => {
                out.append("{\"c_ck\":null}");
                proof {
                    assert(out@ =~= handle_token(self.completed_checkpoint_id));
                }
            },
            Some(n) => {
                out.append("{\"c_ck\":");
                push_u64(&mut out, n);
                out.append("}");
                proof {
                    assert(out@ =~= handle_token(self.completed_checkpoint_id));
                }
            },
        }
        out
    }

    /// Decode a token.  An empty token and a legacy list-shaped token
    /// both mean that nothing was completed; a numeric token carries the
    /// completed id; anything else is a malformed handle.
    pub fn decode(s: &str) -> (r: Result<KeyedProcessCheckpointHandle, StreamError>)
        ensures
            r is Ok <==> (s@.len() == 0 || s@[0] == '[' || s@ == handle_token(None) || (
            is_numeric_token(s@) && token_value(s@) <= u64::MAX)),
            r is Ok ==> r->Ok_0.completed_checkpoint_id == (if s@.len() == 0 || s@[0] == '['
                || s@ == handle_token(None) {
                None
            } else {
                Some(token_value(s@) as u64)
            }),
            r is Err ==> r == Err::<KeyedProcessCheckpointHandle, StreamError>(
                StreamError::MalformedHandle,
            ),
    {
        if s.is_empty() {
            return Ok(KeyedProcessCheckpointHandle { completed_checkpoint_id: None });
        }
        if s.get_char(0) == '[' {
            return Ok(KeyedProcessCheckpointHandle { completed_checkpoint_id: None });
        }
        if str_equals(s, "{\"c_ck\":null}") {
            return Ok(KeyedProcessCheckpointHandle { completed_checkpoint_id: None });
        }
        let prefix = "{\"c_ck\":";
        let p_len = prefix.unicode_len();
        if !str_has_prefix(s, prefix) {
            return Err(StreamError::MalformedHandle);
        }
        let len = s.unicode_len();
        if len - p_len < 2 {
            return Err(StreamError::MalformedHandle);
        }
        if s.get_char(len - 1) != '}' {
            return Err(StreamError::MalformedHandle);
        }
        let body = s.substring_char(p_len, len - 1);
        match parse_u64(body) {
            Some(value) => {
                proof {
                    assert(body@ =~= s@.subrange(p_len as int, s@.len() - 1));
                }
                Ok(KeyedProcessCheckpointHandle { completed_checkpoint_id: Some(value) })
            },
            None => {
                proof {
                    assert(body@ =~= s@.subrange(p_len as int, s@.len() - 1));
                }
                Err(StreamError::MalformedHandle)
            },
        }
    }
}

/// A handle's token decodes back to the handle: the token of `Some(n)`
/// is numeric and carries `n`, begins with a brace, and differs from
/// the `null` token; so the embedded id survives a round trip exactly.
pub proof fn lemma_handle_token_round_trip(completed: Option<u64>)
    ensures
        handle_token(completed).len() > 0,
        handle_token(completed)[0] != '[',
        completed is None ==> handle_token(completed) == handle_token(None),
        completed is Some ==> {
            &&& is_numeric_token(handle_token(completed))
            &&& token_value(handle_token(completed)) == completed->0 as nat
            &&& handle_token(completed) != handle_token(None)
        },
{
    reveal_strlit("{\"c_ck\":");
    reveal_strlit("{\"c_ck\":null}");
    reveal_strlit("}");
    let p = "{\"c_ck\":"@;
    match completed {
        None => {
            assert(handle_token(None)[0] == '{');
        },
        Some(n) => {
            lemma_u64_digits_value(n as nat);
            let token = handle_token(completed);
            let digits = u64_digits(n as nat);
            assert(token == p + digits + "}"@);
            assert(token.len() == p.len() + digits.len() + 1);
            assert(token.take(p.len() as int) =~= p);
            assert(token.last() == '}');
            assert(token.subrange(p.len() as int, token.len() - 1) =~= digits);
            assert(token[0] == '{');
            if token == handle_token(None) {
                assert(token[8] == 'n');
                assert(digits[0] == token[8]);
                assert('0' <= digits[0] <= '9');
                assert(false);
            }
        },
    }
}

} // verus!
