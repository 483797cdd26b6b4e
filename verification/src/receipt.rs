use crate::errors::{ProgramError, ProgramResult};
use crate::pubkey::{base58_of, Pubkey};
use vstd::prelude::*;
use vstd::string::StringExecFns;

verus! {

broadcast use crate::pubkey::lemma_pubkey_len;

/// The recorded outcome of one top-level invocation: ordered log lines,
/// per-program data entries, the live call stack, the latest return-data
/// blob, and the terminal result.
#[derive(Debug)]
pub struct Receipt {
    pub result: ProgramResult,
    pub log_messages: Vec<String>,
    pub log_datas: Vec<(Pubkey, Vec<Vec<u8>>)>,
    pub call_stack: Vec<Pubkey>,
    pub return_data: Option<(Pubkey, Vec<u8>)>,
}

impl Receipt {
    /// Call depth recorded so far.
    pub open spec fn spec_depth(self) -> nat {
        self.call_stack@.len()
    }

    /// Whether some log line reads exactly `text`.
    pub open spec fn spec_contains_log(self, text: Seq<char>) -> bool {
        exists|i: int|
            0 <= i < self.log_messages@.len() && #[trigger] self.log_messages@[i]@ == text
    }

    /// Whether `program` logged exactly this data tuple.
    pub open spec fn spec_contains_data(self, program: Seq<u8>, data: Seq<Seq<u8>>) -> bool {
        exists|i: int|
            0 <= i < self.log_datas@.len() && (#[trigger] self.log_datas@[i].0)@ == program
                && self.log_datas@[i].1.deep_view() == data
    }

    pub fn new() -> (r: Receipt)
        ensures
            r.result is Ok,
            r.log_messages@.len() == 0,
            r.log_datas@.len() == 0,
            r.call_stack@.len() == 0,
            r.return_data is None,
    {
        Receipt {
            result: Ok(()),
            log_messages: Vec::new(),
            log_datas: Vec::new(),
            call_stack: Vec::new(),
            return_data: None,
        }
    }

    /// Appends one log line.
    pub fn push_msg(&mut self, msg: String)
        ensures
            final(self).log_messages@ == old(self).log_messages@.push(msg),
            final(self).result == old(self).result,
            final(self).log_datas == old(self).log_datas,
            final(self).call_stack == old(self).call_stack,
            final(self).return_data == old(self).return_data,
    {
        self.log_messages.push(msg);
    }

    /// The program at the top of the call stack.
    pub fn active_program(&self) -> (r: Pubkey)
        requires
            self.spec_depth() > 0,
        ensures
            r == self.call_stack@.last(),
    {
        let n = self.call_stack.len();
        self.call_stack[n - 1].clone()
    }

    /// Logs entry into a program.
    pub fn log_program_invoked(&mut self, program: &Pubkey)
        ensures
            final(self).log_messages@.len() == old(self).log_messages@.len() + 1,
            final(self).log_messages@ =~= old(self).log_messages@.push(
                final(self).log_messages@.last(),
            ),
            final(self).log_messages@.last()@ == "Program invoked: "@ + base58_of(program@),
            final(self).result == old(self).result,
            final(self).log_datas == old(self).log_datas,
            final(self).call_stack == old(self).call_stack,
            final(self).return_data == old(self).return_data,
    {
        let mut line = String::from_str("Program invoked: ");
        let b58 = program.to_base58();
        line.append(b58.as_str());
        self.push_msg(line);
    }

    /// Logs a program's successful return.
    pub fn log_program_succeed(&mut self)
        ensures
            final(self).log_messages@.len() == old(self).log_messages@.len() + 2,
            forall|i: int|
                0 <= i < old(self).log_messages@.len() ==> final(self).log_messages@[i] == old(self).log_messages@[i],
            final(self).log_messages@[old(self).log_messages@.len() as int + 1]@
                == "Program returned success"@,
            final(self).result == old(self).result,
            final(self).log_datas == old(self).log_datas,
            final(self).call_stack == old(self).call_stack,
            final(self).return_data == old(self).return_data,
    {
        self.push_msg(String::from_str("Program consumed: 0 of 200000 compute units"));
        self.push_msg(String::from_str("Program returned success"));
    }

    /// Logs a program's failure.
    pub fn log_program_failed(&mut self, err: &ProgramError)
        ensures
            final(self).log_messages@.len() == old(self).log_messages@.len() + 1,
            forall|i: int|
                0 <= i < old(self).log_messages@.len() ==> final(self).log_messages@[i] == old(self).log_messages@[i],
            final(self).log_messages@.last()@ == "Program returned error: \""@
                + err.spec_message() + "\""@,
            final(self).result == old(self).result,
            final(self).log_datas == old(self).log_datas,
            final(self).call_stack == old(self).call_stack,
            final(self).return_data == old(self).return_data,
    {
        let mut line = String::from_str("Program returned error: \"");
        let msg = err.message();
        line.append(msg.as_str());
        line.append("\"");
        self.push_msg(line);
    }

    /// Whether a program logged exactly `text` through the logging syscall.
    pub fn contains_program_log(&self, text: &str) -> (r: bool)
        ensures
            r == self.spec_contains_log("Program logged: \""@ + text@ + "\""@),
    {
        let mut line = String::from_str("Program logged: \"");
        line.append(text);
        line.append("\"");
        self.contains_log(line.as_str())
    }

    /// Whether some log line reads exactly `text`.
    pub fn contains_log(&self, text: &str) -> (r: bool)
        ensures
            r == self.spec_contains_log(text@),
    {
        let target = String::from_str(text);
        let n = self.log_messages.len();
        let mut i: usize = 0;
        while i < n
            invariant
                target@ == text@,
                n == self.log_messages@.len(),
                0 <= i <= n,
                forall|j: int| 0 <= j < i ==> #[trigger] self.log_messages@[j]@ != text@,
            decreases n - i,
        {
            let line: &String = &self.log_messages[i];
            if line.eq(&target) {
                return true;
            }
            i += 1;
        }
        false
    }

    /// Whether `program` logged exactly this data tuple.
    pub fn contains_data(&self, program: &Pubkey, data: &Vec<Vec<u8>>) -> (r: bool)
        ensures
            r == self.spec_contains_data(program@, data.deep_view()),
    {
        let n = self.log_datas.len();
        let mut i: usize = 0;
        while i < n
            invariant
                n == self.log_datas@.len(),
                0 <= i <= n,
                forall|j: int|
                    0 <= j < i ==> !((#[trigger] self.log_datas@[j].0)@ == program@
                        && self.log_datas@[j].1.deep_view() == data.deep_view()),
            decreases n - i,
        {
            let entry_key: &Pubkey = &self.log_datas[i].0;
            if entry_key.eq(program) {
                if vecs_of_bytes_equal(&self.log_datas[i].1, data) {
                    return true;
                }
            }
            i += 1;
        }
        false
    }
}

/// `b`'s log begins with `a`'s: lines are only ever appended.
pub open spec fn spec_log_prefix(a: Receipt, b: Receipt) -> bool {
    a.log_messages@.len() <= b.log_messages@.len() && forall|i: int|
        0 <= i < a.log_messages@.len() ==> #[trigger] b.log_messages@[i] == a.log_messages@[i]
}

/// `b` is `a` with, at most, more log lines: the result, the call stack,
/// the data entries and the return data are untouched.
pub open spec fn spec_log_extends(a: Receipt, b: Receipt) -> bool {
    &&& b.result == a.result
    &&& b.call_stack == a.call_stack
    &&& b.return_data == a.return_data
    &&& b.log_datas == a.log_datas
    &&& a.log_messages@.len() <= b.log_messages@.len()
    &&& forall|i: int|
        0 <= i < a.log_messages@.len() ==> #[trigger] b.log_messages@[i] == a.log_messages@[i]
}

/// Element-wise equality of two lists of byte strings.
fn vecs_of_bytes_equal(a: &Vec<Vec<u8>>, b: &Vec<Vec<u8>>) -> (r: bool)
    ensures
        r == (a.deep_view() == b.deep_view()),
{
    let n = a.len();
    if n != b.len() {
        proof {
            assert(a.deep_view().len() != b.deep_view().len());
        }
        return false;
    }
    let mut i: usize = 0;
    while i < n
        invariant
            n == a@.len() == b@.len(),
            0 <= i <= n,
            forall|j: int| 0 <= j < i ==> #[trigger] a.deep_view()[j] == b.deep_view()[j],
        decreases n - i,
    {
        if !crate::utils::compare_arrays(a[i].as_slice(), b[i].as_slice()) {
            proof {
                assert(a.deep_view()[i as int] =~= a@[i as int]@);
                assert(b.deep_view()[i as int] =~= b@[i as int]@);
            }
            return false;
        }
        proof {
            assert(a.deep_view()[i as int] =~= a@[i as int]@);
            assert(b.deep_view()[i as int] =~= b@[i as int]@);
        }
        i += 1;
    }
    proof {
        assert(a.deep_view() =~= b.deep_view());
    }
    true
}

} // verus!
