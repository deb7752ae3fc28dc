//! The SQL parse bridge: a fast parse without error positions first, and a
//! diagnostic parse only where the fast one fails.
use vstd::prelude::*;

verus! {

/// What a parse run gives: an output, if the run produced one, and the
/// errors that it met.
#[derive(Debug, PartialEq, Eq)]
pub struct ParseResult<T, E> {
    pub output: Option<T>,
    pub errs: Vec<E>,
}

impl<T, E> ParseResult<T, E> {
    /// A result made of an output and errors.
    pub fn new(output: Option<T>, errs: Vec<E>) -> (r: Self)
        ensures
            r.output == output,
            r.errs == errs,
    {
        ParseResult { output, errs }
    }

    /// Whether the run produced an output.
    pub fn has_output(&self) -> (b: bool)
        ensures
            b == self.output.is_some(),
    {
        self.output.is_some()
    }

    /// Whether the run met any error.
    pub fn has_errors(&self) -> (b: bool)
        ensures
            b == (self.errs@.len() > 0),
    {
        self.errs.len() > 0
    }

    /// The output, if there is one.
    pub fn into_output(self) -> (o: Option<T>)
        ensures
            o == self.output,
    {
        self.output
    }

    /// The errors; none where the run met none.
    pub fn into_errors(self) -> (errs: Vec<E>)
        ensures
            errs == self.errs,
    {
        self.errs
    }
}

/// What follows the fast parse.
#[derive(Debug, PartialEq, Eq)]
pub enum SqlParseStep<T> {
    /// The success continuation is invoked with this artifact, and nothing
    /// else happens.
    Success(T),
    /// The text is parsed again with error positions, and the rendered
    /// diagnostic goes to the error continuation.
    Fallback,
}

/// Decides what follows the fast parse of a text. Where the parse produced
/// an artifact, the artifact goes to the success continuation, whatever
/// errors the run noted and however many statements the artifact holds:
/// no statement at all is a valid artifact. Only where it produced none is
/// the diagnostic parse due.
pub fn endb_parse_sql<T, E>(fast: ParseResult<T, E>) -> (step: SqlParseStep<T>)
    ensures
        fast.output matches Some(ast) ==> step == SqlParseStep::Success(ast),
        fast.output is None ==> step is Fallback,
{
    if fast.has_output() {
        match fast.into_output() {
            Some(ast) => SqlParseStep::Success(ast),
            None => SqlParseStep::Fallback,
        }
    } else {
        SqlParseStep::Fallback
    }
}

/// The number of statements in an artifact.
pub fn endb_ast_vec_len<A>(ast: &Vec<A>) -> (len: usize)
    ensures
        len == ast@.len(),
{
    ast.len()
}

/// The borrowed view of an artifact: its statements, in order.
pub fn endb_ast_vec_ptr<A>(ast: &Vec<A>) -> (view: &[A])
    ensures
        view@ == ast@,
{
    ast.as_slice()
}

/// The size of one statement node in bytes.
pub fn endb_ast_size<A>() -> (size: usize)
    ensures
        size as nat == vstd::layout::size_of::<A>(),
{
    core::mem::size_of::<A>()
}

/// The statement at `idx`.
pub fn endb_ast_vec_element<A>(ast: &Vec<A>, idx: usize) -> (node: &A)
    requires
        idx < ast@.len(),
    ensures
        *node == ast@[idx as int],
{
    &ast[idx]
}

} // verus!
