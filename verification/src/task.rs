//! Tasks, the programs they name, and the canonical combination of hashes.

use crate::digest::{keccak256_hex, keccak256_hex_string};
use crate::outcome::string_views;
use vstd::prelude::*;
use vstd::string::*;
use vstd::utf8::encode_utf8;

verus! {

/// What the coordinator expects back for a task.
#[derive(Debug, Clone, Copy, PartialEq, Eq, Structural)]
pub enum TaskType {
    /// The proof itself.
    ProofRequired,
    /// A single hash for the task.
    ProofHash,
    /// The hashes of all the task's proofs.
    AllProofHashes,
}

/// A unit of work: a program, what to send back, and the input records,
/// one proof to be made for each.
#[derive(Debug, Clone, PartialEq, Eq)]
pub struct Task {
    pub program_id: String,
    pub task_type: TaskType,
    pub public_inputs_list: Vec<Vec<u8>>,
}

/// The mathematical value of a [`Task`].
pub ghost struct TaskView {
    pub program_id: Seq<char>,
    pub task_type: TaskType,
    pub inputs: Seq<Seq<u8>>,
}

impl View for Task {
    type V = TaskView;

    open spec fn view(&self) -> TaskView {
        TaskView {
            program_id: self.program_id@,
            task_type: self.task_type,
            inputs: Seq::new(
                self.public_inputs_list@.len(),
                |i: int| self.public_inputs_list@[i]@,
            ),
        }
    }
}

/// All of `parts`, one after the other.
pub open spec fn concat_all(parts: Seq<Seq<char>>) -> Seq<char>
    decreases parts.len(),
{
    if parts.len() == 0 {
        Seq::empty()
    } else {
        concat_all(parts.drop_last()) + parts.last()
    }
}

/// The canonical combination of per-input hashes: nothing for no hashes,
/// else the content hash of the hashes written one after the other, in
/// order, as UTF-8.
pub open spec fn canonical_combination(hashes: Seq<Seq<char>>) -> Seq<char> {
    if hashes.len() == 0 {
        Seq::empty()
    } else {
        keccak256_hex(encode_utf8(concat_all(hashes)))
    }
}

/// The task-level hash for a task of type `task_type` whose per-input
/// hashes are `hashes`: the canonical combination where the coordinator
/// expects a hash, else the first hash, or nothing where there is none.
pub open spec fn combined_hash(task_type: TaskType, hashes: Seq<Seq<char>>) -> Seq<char> {
    match task_type {
        TaskType::AllProofHashes | TaskType::ProofHash => canonical_combination(hashes),
        TaskType::ProofRequired => if hashes.len() > 0 {
            hashes[0]
        } else {
            Seq::empty()
        },
    }
}

impl TaskType {
    /// Folds per-input hashes into the task-level hash, as tasks of this type ask.
    pub fn combine(self, hashes: &[String]) -> (out: String)
        ensures
            out@ == combined_hash(self, string_views(hashes@)),
    {
        match self {
            TaskType::AllProofHashes | TaskType::ProofHash => Task::combine_proof_hashes(hashes),
            TaskType::ProofRequired => {
                if hashes.len() > 0 {
                    hashes[0].clone()
                } else {
                    String::new()
                }
            },
        }
    }
}

impl Task {
    /// A task for `program_id` with the given inputs.
    pub fn new(program_id: String, task_type: TaskType, inputs: Vec<Vec<u8>>) -> (task: Task)
        ensures
            task.program_id == program_id,
            task.task_type == task_type,
            task.public_inputs_list == inputs,
    {
        Task { program_id, task_type, public_inputs_list: inputs }
    }

    /// The task's input records, in order.
    pub fn all_inputs(&self) -> (inputs: &[Vec<u8>])
        ensures
            inputs@ == self.public_inputs_list@,
    {
        self.public_inputs_list.as_slice()
    }

    /// Combines per-input hashes into one, canonically.
    pub fn combine_proof_hashes(hashes: &[String]) -> (out: String)
        ensures
            out@ == canonical_combination(string_views(hashes@)),
    {
        if hashes.len() == 0 {
            return String::new();
        }
        let mut joined = String::new();
        let mut i: usize = 0;
        while i < hashes.len()
            invariant
                i <= hashes@.len(),
                joined@ == concat_all(string_views(hashes@).take(i as int)),
            decreases hashes@.len() - i,
        {
            proof {
                let parts = string_views(hashes@);
                assert(parts.take(i as int + 1).drop_last() =~= parts.take(i as int));
            }
            joined.append(hashes[i].as_str());
            i = i + 1;
        }
        assert(string_views(hashes@).take(i as int) =~= string_views(hashes@));
        keccak256_hex_string(joined.as_str().as_bytes())
    }
}

/// The programs this library can schedule proofs for.
#[derive(Debug, Clone, Copy, PartialEq, Eq, Structural)]
pub enum Program {
    /// The Fibonacci program with its initial inputs.
    FibInputInitial,
}

impl Program {
    /// The program that `program_id` names, if there is one.
    pub open spec fn of_id(program_id: Seq<char>) -> Option<Program> {
        if program_id == "fib_input_initial"@ {
            Some(Program::FibInputInitial)
        } else {
            None
        }
    }

    /// The program that `program_id` names, if there is one.
    pub fn from_id(program_id: &str) -> (program: Option<Program>)
        ensures
            program == Program::of_id(program_id@),
    {
        let known = String::from_str("fib_input_initial");
        let given = String::from_str(program_id);
        if given == known {
            Some(Program::FibInputInitial)
        } else {
            None
        }
    }
}

} // verus!
