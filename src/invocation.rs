use vstd::prelude::*;
use vstd::string::StringExecFns;
use crate::target::{Input, Output};

verus! {

/// The text of each argument, in order.
pub open spec fn texts(v: Seq<String>) -> Seq<Seq<char>> {
    v.map_values(|s: String| s@)
}

/// What the transcoder is told to read: the file's path, or its standard input.
pub open spec fn input_locator<R>(input: Input<R>) -> Seq<char> {
    match input {
        Input::File(path) => path@,
        Input::Stream(_) => "pipe:0"@,
    }
}

/// What the transcoder is told to write: the file's path, or its standard output.
pub open spec fn output_locator<W>(output: Output<W>) -> Seq<char> {
    match output {
        Output::File(path) => path@,
        Output::Stream(_) => "pipe:1"@,
    }
}

/// The address that the transcoder reports progress to, for a socket at `path`.
pub open spec fn progress_address(path: Seq<char>) -> Seq<char> {
    "unix://"@ + path
}

/// A process to start: the program, its arguments, and which of its standard
/// streams are piped to the session.
pub struct Invocation {
    pub program: String,
    pub args: Vec<String>,
    pub stdin_piped: bool,
    pub stdout_piped: bool,
}

/// The options and the two ends of one transcoding run.
pub struct FfmpegBuilder<R, W> {
    pub global_options: Vec<String>,
    pub input_options: Vec<String>,
    pub input: Input<R>,
    pub output_options: Vec<String>,
    pub output: Output<W>,
}

impl<R, W> FfmpegBuilder<R, W> {
    /// The arguments of the run, reporting progress to `url`:
    /// `-progress url`, the global options, the input options, `-i` and the
    /// input's locator, the output options, and the output's locator.
    pub open spec fn args_spec(&self, url: Seq<char>) -> Seq<Seq<char>> {
        seq!["-progress"@, url] + texts(self.global_options@) + texts(self.input_options@) + seq![
            "-i"@,
            input_locator(self.input),
        ] + texts(self.output_options@) + seq![output_locator(self.output)]
    }

    /// The invocation of the transcoder for this run, reporting progress to
    /// `progress_url`. Standard input is piped exactly when the input is a
    /// stream, and standard output exactly when the output is one.
    pub fn to_command(&self, progress_url: &str) -> (r: Invocation)
        ensures
            r.program@ == "ffmpeg"@,
            texts(r.args@) == self.args_spec(progress_url@),
            r.stdin_piped == self.input.is_stream(),
            r.stdout_piped == self.output.is_stream(),
    {
        let mut args: Vec<String> = Vec::new();
        push_one(&mut args, "-progress".to_owned());
        push_one(&mut args, progress_url.to_owned());
        assert(texts(args@) =~= seq!["-progress"@, progress_url@]);
        push_all(&mut args, &self.global_options);
        push_all(&mut args, &self.input_options);
        push_one(&mut args, "-i".to_owned());
        let stdin_piped = match &self.input {
            Input::File(path) => {
                push_one(&mut args, path.clone());
                false
            },
            Input::Stream(_) => {
                push_one(&mut args, "pipe:0".to_owned());
                true
            },
        };
        push_all(&mut args, &self.output_options);
        let stdout_piped = match &self.output {
            Output::File(path) => {
                push_one(&mut args, path.clone());
                false
            },
            Output::Stream(_) => {
                push_one(&mut args, "pipe:1".to_owned());
                true
            },
        };
        assert(texts(args@) =~= self.args_spec(progress_url@));
        Invocation { program: "ffmpeg".to_owned(), args, stdin_piped, stdout_piped }
    }
}

/// The arguments keep every option list whole and in its place: the progress
/// flag first, then the global options, the input options, `-i` with the
/// input's locator, the output options, and last the output's locator.
pub proof fn lemma_argument_order<R, W>(b: FfmpegBuilder<R, W>, url: Seq<char>)
    ensures
        ({
            let a = b.args_spec(url);
            let g = b.global_options@.len() as int;
            let i = b.input_options@.len() as int;
            let o = b.output_options@.len() as int;
            &&& a.len() == 5 + g + i + o
            &&& a[0] == "-progress"@
            &&& a[1] == url
            &&& a.subrange(2, 2 + g) == texts(b.global_options@)
            &&& a.subrange(2 + g, 2 + g + i) == texts(b.input_options@)
            &&& a[2 + g + i] == "-i"@
            &&& a[3 + g + i] == input_locator(b.input)
            &&& a.subrange(4 + g + i, 4 + g + i + o) == texts(b.output_options@)
            &&& a[4 + g + i + o] == output_locator(b.output)
        }),
{
    let a = b.args_spec(url);
    let g = b.global_options@.len() as int;
    let i = b.input_options@.len() as int;
    let o = b.output_options@.len() as int;
    assert(a.subrange(2, 2 + g) =~= texts(b.global_options@));
    assert(a.subrange(2 + g, 2 + g + i) =~= texts(b.input_options@));
    assert(a.subrange(4 + g + i, 4 + g + i + o) =~= texts(b.output_options@));
}

proof fn lemma_texts_push(v: Seq<String>, s: String)
    ensures
        texts(v.push(s)) =~= texts(v).push(s@),
{
    assert(texts(v.push(s)) =~= texts(v).push(s@));
}

/// Appends `arg` to `args`.
fn push_one(args: &mut Vec<String>, arg: String)
    ensures
        texts(final(args)@) == texts(old(args)@).push(arg@),
{
    let ghost before = args@;
    args.push(arg);
    proof {
        lemma_texts_push(before, arg);
    }
}

/// Appends a copy of each of `opts` to `args`, in order.
fn push_all(args: &mut Vec<String>, opts: &Vec<String>)
    ensures
        texts(final(args)@) == texts(old(args)@) + texts(opts@),
{
    let ghost start = texts(args@);
    let mut i: usize = 0;
    while i < opts.len()
        invariant
            i <= opts@.len(),
            texts(args@) == start + texts(opts@.take(i as int)),
        decreases opts@.len() - i,
    {
        let ghost before = args@;
        args.push(opts[i].clone());
        proof {
            lemma_texts_push(before, opts@[i as int]);
            lemma_texts_push(opts@.take(i as int), opts@[i as int]);
            assert(opts@.take(i + 1) =~= opts@.take(i as int).push(opts@[i as int]));
        }
        i += 1;
    }
    assert(opts@.take(opts@.len() as int) =~= opts@);
}

/// The address of the progress socket at `path`.
pub fn progress_url(path: &str) -> (r: String)
    ensures
        r@ == progress_address(path@),
{
    let mut url = "unix://".to_owned();
    url.append(path);
    url
}

} // verus!
