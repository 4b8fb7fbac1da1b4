//! UCI batches: the commands are handed to `uci batch` on its standard
//! input, one per line, never through a shell.
use vstd::prelude::*;
use crate::json_text::string_views;
use crate::text::push_char;

verus! {

/// Declares `std::io::Error`, which a failed spawn or pipe write carries.
#[verifier::external_type_specification]
#[verifier::external_body]
pub struct ExIoError(std::io::Error);

/// Why a batch failed.
#[derive(Debug)]
pub enum UciError {
    ExecutionFailed(String),
    IoError(std::io::Error),
}

impl From<std::io::Error> for UciError {
    fn from(err: std::io::Error) -> (r: Self) {
        UciError::IoError(err)
    }
}

impl vstd::std_specs::convert::FromSpecImpl<std::io::Error> for UciError {
    open spec fn obeys_from_spec() -> bool {
        true
    }

    open spec fn from_spec(err: std::io::Error) -> Self {
        UciError::IoError(err)
    }
}

/// The commands joined by newlines.
pub open spec fn join_lines(c: Seq<Seq<char>>) -> Seq<char>
    decreases c.len(),
{
    if c.len() == 0 {
        seq![]
    } else if c.len() == 1 {
        c[0]
    } else {
        join_lines(c.drop_last()) + seq!['\n'] + c.last()
    }
}

/// What `uci batch` reads: each command on a line of its own, the last line
/// ended too (`commands.join("\n") + "\n"`).
pub fn batch_payload(commands: &Vec<String>) -> (p: String)
    ensures
        p@ == join_lines(string_views(commands@)) + seq!['\n'],
{
    let ghost cv = string_views(commands@);
    let mut p = String::new();
    let mut i: usize = 0;
    while i < commands.len()
        invariant
            cv == string_views(commands@),
            i <= commands@.len(),
            p@ == join_lines(cv.take(i as int)),
        decreases commands.len() - i,
    {
        let ghost part = cv.take(i + 1);
        assert(part.drop_last() =~= cv.take(i as int));
        if i > 0 {
            push_char(&mut p, '\n');
        }
        p.append(commands[i].as_str());
        assert(p@ =~= join_lines(part));
        i = i + 1;
    }
    assert(cv.take(i as int) =~= cv);
    push_char(&mut p, '\n');
    p
}

} // verus!
