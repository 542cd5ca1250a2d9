use vstd::prelude::*;

verus! {

/// `tokio::io::Empty`, the reader that stands in for an input read from a file.
#[verifier::external_type_specification]
#[verifier::external_body]
pub struct ExEmpty(tokio::io::Empty);

/// `tokio::io::Sink`, the writer that stands in for an output written to a file.
#[verifier::external_type_specification]
#[verifier::external_body]
pub struct ExSink(tokio::io::Sink);

/// Where the transcoder reads its input: a file it opens itself, or a live
/// stream that the session pumps into its standard input.
pub enum Input<R> {
    File(String),
    Stream(R),
}

/// Where the transcoder writes its output: a file it creates itself, or a
/// live stream that the session fills from its standard output.
pub enum Output<W> {
    File(String),
    Stream(W),
}

impl<R> Input<R> {
    /// True when the session has to feed the child's standard input.
    pub open spec fn is_stream(&self) -> bool {
        self is Stream
    }
}

impl<W> Output<W> {
    /// True when the session has to drain the child's standard output.
    pub open spec fn is_stream(&self) -> bool {
        self is Stream
    }
}

impl Input<tokio::io::Empty> {
    /// An input read by the transcoder from the file at `path`.
    pub fn file(path: String) -> (r: Self)
        ensures
            r == Input::<tokio::io::Empty>::File(path),
    {
        Input::File(path)
    }
}

impl Output<tokio::io::Sink> {
    /// An output written by the transcoder to the file at `path`.
    pub fn file(path: String) -> (r: Self)
        ensures
            r == Output::<tokio::io::Sink>::File(path),
    {
        Output::File(path)
    }
}

} // verus!
