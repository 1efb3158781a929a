//! The size of the grid, as chosen on the command line.

use vstd::prelude::*;

verus! {

/// The size, rows first, that is used where the command line names none
/// that can be used.
pub const DEFAULT_SIZE: (usize, usize) = (23, 40);

/// What `str::trim` returns for the text `s`.
pub uninterp spec fn trimmed(s: Seq<char>) -> Seq<char>;

/// What `str::parse::<usize>` returns for the text `s`: the number, or
/// `None` where it returns an error.
pub uninterp spec fn parsed_usize(s: Seq<char>) -> Option<usize>;

/// `str::trim`, which returns its argument without the white space at its
/// two ends. The contract only names the result: the same text gives the
/// same result.
#[verifier::external_body]
fn trim(s: &str) -> (t: &str)
    ensures
        t@ == trimmed(s@),
{
    s.trim()
}

/// `str::parse::<usize>`, which reads a number written in decimal digits
/// and returns an error for text that is no such number or names a number
/// too large. The contract only names the result: the same text gives the
/// same result, and an error of any kind is `None`.
#[verifier::external_body]
fn parse_usize(s: &str) -> (n: Option<usize>)
    ensures
        n == parsed_usize(s@),
{
    s.parse::<usize>().ok()
}

/// The size that is used for the two numbers read from the command line:
/// the pair itself where both were read and both are positive, the default
/// size in every other case. The default is taken as a whole, never for one
/// of the two alone.
pub open spec fn chosen_size(rows: Option<usize>, cols: Option<usize>) -> (usize, usize) {
    match (rows, cols) {
        (Some(m), Some(n)) => if m > 0 && n > 0 {
            (m, n)
        } else {
            DEFAULT_SIZE
        },
        _ => DEFAULT_SIZE,
    }
}

/// The size that the arguments of the program ask for. The first argument
/// is the program's name; a size is read only where exactly two more follow,
/// the rows and then the columns, each with white space around it ignored.
pub open spec fn size_of_args(args: Seq<Seq<char>>) -> (usize, usize) {
    if args.len() != 3 {
        DEFAULT_SIZE
    } else {
        chosen_size(parsed_usize(trimmed(args[1])), parsed_usize(trimmed(args[2])))
    }
}

/// Executable form of [`chosen_size`]. Both numbers of the result are
/// positive.
pub fn choose_size(rows: Option<usize>, cols: Option<usize>) -> (size: (usize, usize))
    ensures
        size == chosen_size(rows, cols),
        size.0 > 0,
        size.1 > 0,
{
    match (rows, cols) {
        (Some(m), Some(n)) => {
            if m > 0 && n > 0 {
                (m, n)
            } else {
                DEFAULT_SIZE
            }
        },
        _ => DEFAULT_SIZE,
    }
}

/// The size of the grid for the arguments that the program was started
/// with, the program's name first.
pub fn parse_args(args: &Vec<String>) -> (size: (usize, usize))
    ensures
        size == size_of_args(Seq::new(args@.len(), |i: int| args@[i]@)),
        size.0 > 0,
        size.1 > 0,
{
    if args.len() != 3 {
        DEFAULT_SIZE
    } else {
        let rows = parse_usize(trim(args[1].as_str()));
        let cols = parse_usize(trim(args[2].as_str()));
        choose_size(rows, cols)
    }
}

} // verus!
