//! A bidirectional stream built from a separate reader and writer.
use vstd::prelude::*;
use vstd::string::StringExecFns;

verus! {

/// A reader and a writer used together as one stream, with a name that identifies it.
pub struct BiStream<R, W> {
    /// The reading half.
    pub read: R,
    /// The writing half.
    pub write: W,
    /// A name used to identify the stream.
    pub name: String,
}

impl<R, W> BiStream<R, W> {
    /// Creates a new `BiStream` from the provided reader, writer, and name.
    pub fn new(read: R, write: W, name: String) -> (stream: Self)
        ensures
            stream.read == read,
            stream.write == write,
            stream.name@ == name@,
    {
        BiStream { read, write, name }
    }

    /// The stream's display text: `BiStream{<name>}`.
    pub fn display(&self) -> (text: String)
        ensures
            text@ == seq!['B', 'i', 'S', 't', 'r', 'e', 'a', 'm', '{'] + self.name@ + seq!['}'],
    {
        let mut text = String::from_str("BiStream{");
        text.append(self.name.as_str());
        text.append("}");
        proof {
            reveal_strlit("BiStream{");
            reveal_strlit("}");
        }
        assert(text@ =~= seq!['B', 'i', 'S', 't', 'r', 'e', 'a', 'm', '{'] + self.name@ + seq!['}']);
        text
    }
}

} // verus!
