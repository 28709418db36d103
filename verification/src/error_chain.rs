//! Errors with the errors that caused them, and how they are written out.

use vstd::prelude::*;
use vstd::string::StringExecFns;

verus! {

/// An error in words, and the errors behind it, the nearest first.
#[derive(Debug, Clone)]
pub struct ErrorChain {
    pub message: String,
    pub causes: Vec<String>,
}

/// An error chain by its characters.
#[verifier::ext_equal]
pub struct ErrorChainView {
    pub message: Seq<char>,
    pub causes: Seq<Seq<char>>,
}

impl View for ErrorChain {
    type V = ErrorChainView;

    open spec fn view(&self) -> ErrorChainView {
        ErrorChainView {
            message: self.message@,
            causes: self.causes@.map_values(|cause: String| cause@),
        }
    }
}

/// One line that announces a cause and one, indented, that holds it.
pub open spec fn cause_text(cause: Seq<char>) -> Seq<char> {
    "Caused by:\n\t"@ + cause + "\n"@
}

/// The causes one after the other, the nearest first.
pub open spec fn causes_text(causes: Seq<Seq<char>>) -> Seq<char>
    decreases causes.len(),
{
    if causes.len() == 0 {
        Seq::empty()
    } else {
        causes_text(causes.drop_last()) + cause_text(causes.last())
    }
}

/// The error, an empty line, then its causes.
pub open spec fn chain_text(chain: ErrorChainView) -> Seq<char> {
    chain.message + "\n\n"@ + causes_text(chain.causes)
}

/// Writes an error with all its causes.
pub fn error_chain_fmt(e: &ErrorChain) -> (text: String)
    ensures
        text@ == chain_text(e@),
{
    let mut text: String = e.message.clone();
    text.append("\n\n");
    let ghost head = text@;
    let mut i: usize = 0;
    while i < e.causes.len()
        invariant
            i <= e.causes.len(),
            head == e@.message + "\n\n"@,
            text@ == head + causes_text(e@.causes.take(i as int)),
        decreases e.causes.len() - i,
    {
        let ghost done = e@.causes.take(i as int);
        let ghost next = e@.causes.take(i + 1);
        assert(next.drop_last() =~= done);
        assert(next.last() == e.causes@[i as int]@);
        text.append("Caused by:\n\t");
        text.append(e.causes[i].as_str());
        text.append("\n");
        assert(text@ =~= head + causes_text(next));
        i += 1;
    }
    assert(e@.causes.take(i as int) =~= e@.causes);
    text
}

impl ErrorChain {
    /// An error that nothing else caused.
    pub fn msg(message: &str) -> (chain: Self)
        ensures
            chain@ == (ErrorChainView { message: message@, causes: seq![] }),
    {
        let chain = ErrorChain { message: message.to_owned(), causes: Vec::new() };
        assert(chain@.causes =~= seq![]);
        chain
    }

    /// An error that one other error caused.
    pub fn context(message: &str, cause: String) -> (chain: Self)
        ensures
            chain@ == (ErrorChainView { message: message@, causes: seq![cause@] }),
    {
        let mut causes: Vec<String> = Vec::new();
        causes.push(cause);
        let chain = ErrorChain { message: message.to_owned(), causes };
        assert(chain@.causes =~= seq![cause@]);
        chain
    }

    /// The same error once more.
    pub fn copied(&self) -> (chain: Self)
        ensures
            chain@ == self@,
    {
        let mut causes: Vec<String> = Vec::new();
        let mut i: usize = 0;
        while i < self.causes.len()
            invariant
                i <= self.causes.len(),
                causes@ == self.causes@.take(i as int),
            decreases self.causes.len() - i,
        {
            causes.push(self.causes[i].clone());
            i += 1;
        }
        assert(causes@ =~= self.causes@);
        ErrorChain { message: self.message.clone(), causes }
    }

    /// The same causes, with this error as the nearest of them, behind `message`.
    pub fn wrapped(&self, message: &str) -> (chain: Self)
        ensures
            chain@ == (ErrorChainView {
                message: message@,
                causes: seq![self@.message] + self@.causes,
            }),
    {
        let mut causes: Vec<String> = Vec::new();
        causes.push(self.message.clone());
        let mut i: usize = 0;
        while i < self.causes.len()
            invariant
                i <= self.causes.len(),
                causes@.map_values(|cause: String| cause@) == seq![self@.message]
                    + self@.causes.take(i as int),
            decreases self.causes.len() - i,
        {
            let ghost before = causes@.map_values(|cause: String| cause@);
            causes.push(self.causes[i].clone());
            assert(causes@.map_values(|cause: String| cause@) =~= before.push(
                self.causes@[i as int]@,
            ));
            assert(self@.causes.take(i + 1) =~= self@.causes.take(i as int).push(
                self.causes@[i as int]@,
            ));
            i += 1;
        }
        assert(self@.causes.take(i as int) =~= self@.causes);
        ErrorChain { message: message.to_owned(), causes }
    }
}

/// An error chain holds the words of the error and of each cause, in their order.
pub proof fn law_chain_view(chain: ErrorChain, i: int)
    requires
        0 <= i < chain.causes@.len(),
    ensures
        chain@.message == chain.message@,
        chain@.causes.len() == chain.causes@.len(),
        chain@.causes[i] == chain.causes@[i]@,
{
}

/// An error that nothing caused is written with an empty line behind it. A cause
/// more is written behind all the others, with a line that announces it.
pub proof fn law_causes_follow(message: Seq<char>, causes: Seq<Seq<char>>, cause: Seq<char>)
    ensures
        chain_text(ErrorChainView { message, causes: Seq::empty() }) == message + "\n\n"@,
        chain_text(ErrorChainView { message, causes: causes.push(cause) }) == chain_text(
            ErrorChainView { message, causes },
        ) + "Caused by:\n\t"@ + cause + "\n"@,
{
    assert(causes_text(Seq::<Seq<char>>::empty()) =~= Seq::<char>::empty());
    assert(message + "\n\n"@ + Seq::<char>::empty() =~= message + "\n\n"@);
    assert(causes.push(cause).drop_last() =~= causes);
    assert(chain_text(ErrorChainView { message, causes: causes.push(cause) }) =~= chain_text(
        ErrorChainView { message, causes },
    ) + "Caused by:\n\t"@ + cause + "\n"@);
}

/// An error is written with all its causes, and one that wraps it is written with
/// the error as its first cause.
pub proof fn law_error_is_written(
    e: ErrorChain,
    text: String,
    heading: &str,
    wrapped: ErrorChain,
    copy: ErrorChain,
)
    requires
        call_ensures(error_chain_fmt, (&e,), text),
        call_ensures(ErrorChain::wrapped, (&e, heading), wrapped),
        call_ensures(ErrorChain::copied, (&e,), copy),
    ensures
        text@ == chain_text(e@),
        wrapped@.message == heading@,
        wrapped@.causes == seq![e@.message] + e@.causes,
        copy@ == e@,
{
}

} // verus!
