//! The text that a program prints, collected in a buffer for the caller to show.
use vstd::prelude::*;
use crate::text::push_str;

verus! {

/// Collects the text that evaluation prints.
pub struct Output {
    buffer: String,
}

impl View for Output {
    type V = Seq<char>;

    closed spec fn view(&self) -> Seq<char> {
        self.buffer@
    }
}

impl Output {
    /// An empty buffer.
    pub fn new() -> (o: Output)
        ensures
            o@ == Seq::<char>::empty(),
    {
        Output { buffer: String::new() }
    }

    /// The text collected so far.
    pub fn as_str(&self) -> (s: &str)
        ensures
            s@ == self@,
    {
        self.buffer.as_str()
    }

    /// Hands out the text collected so far and empties the buffer.
    pub fn take(&mut self) -> (s: String)
        ensures
            s@ == old(self)@,
            final(self)@ == Seq::<char>::empty(),
    {
        let mut s = String::new();
        std::mem::swap(&mut s, &mut self.buffer);
        s
    }
}

/// Appends `text` to the output.
pub fn write(out: &mut Output, text: &str)
    ensures
        final(out)@ == old(out)@ + text@,
{
    push_str(&mut out.buffer, text);
}

/// Appends `text` and a newline to the output.
pub fn writeln(out: &mut Output, text: &str)
    ensures
        final(out)@ == old(out)@ + text@ + seq!['\n'],
{
    write(out, text);
    newline(out);
}

/// Appends a newline to the output.
pub fn newline(out: &mut Output)
    ensures
        final(out)@ == old(out)@ + seq!['\n'],
{
    crate::text::push_char(&mut out.buffer, '\n');
    assert(old(out)@.push('\n') =~= old(out)@ + seq!['\n']);
}

/// `r` is what running `f` on a fresh buffer can give: the text `f` left in
/// the buffer, and `f`'s result.
pub open spec fn captured<F: FnOnce(Output) -> (Output, T), T>(f: F, r: (String, T)) -> bool {
    exists|start: Output, done: Output|
        #![trigger call_ensures(f, (start,), (done, r.1))]
        start@ == Seq::<char>::empty() && call_ensures(f, (start,), (done, r.1)) && r.0@ == done@
}

/// Runs `f` on a fresh buffer and returns what it wrote, with its result.
pub fn capture<F, T>(f: F) -> (r: (String, T))
    where
        F: FnOnce(Output) -> (Output, T),
    requires
        forall|o: Output| o@ == Seq::<char>::empty() ==> call_requires(f, (o,)),
    ensures
        captured(f, r),
{
    let start = Output::new();
    let ghost s = start;
    let (mut done, value) = f(start);
    let ghost d = done;
    let text = done.take();
    let r = (text, value);
    assert(s@ == Seq::<char>::empty() && call_ensures(f, (s,), (d, r.1)) && r.0@ == d@);
    r
}

/// What `capture` returns is what its function wrote: when the function
/// appends the text `t` to whatever buffer it is handed and returns `v`,
/// `capture` returns `t` and `v`. The function writes only to that buffer, so
/// nothing reaches any other output.
pub proof fn law_capture_returns_writes<F: FnOnce(Output) -> (Output, T), T>(f: F, t: Seq<char>, v: T, r: (String, T))
    requires
        captured(f, r),
        forall|o: Output, o2: Output, w: T| #[trigger] call_ensures(f, (o,), (o2, w)) ==> o2@ == o@ + t && w == v,
    ensures
        r.0@ == t,
        r.1 == v,
{
    let (start, done) = choose|start: Output, done: Output|
        #![trigger call_ensures(f, (start,), (done, r.1))]
        start@ == Seq::<char>::empty() && call_ensures(f, (start,), (done, r.1)) && r.0@ == done@;
    assert(done@ == start@ + t);
    assert(Seq::<char>::empty() + t =~= t);
}

} // verus!
