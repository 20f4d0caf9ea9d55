//! The transformation set: each transformation is a total function from a
//! non-blank string to a string, and fails with `TransformError::EmptyInput`
//! exactly when the input trims to nothing.

use vstd::prelude::*;
use crate::csvfmt::CsvError;
use crate::csvfmt::csv_spec;
use crate::csvfmt::print_csv;
use crate::command::Command;
use crate::text::push_char;
use crate::text::dec_of;
use crate::text::usize_to_string;
use crate::is_blank;
use crate::validate_input;

verus! {

/// Why a transformation produced no output.
#[derive(Debug, PartialEq, Eq, Structural)]
pub enum TransformError {
    /// The trimmed input had zero length.
    EmptyInput,
    /// The input was not well-formed delimiter-separated data.
    CsvParse(CsvError),
}

/// The one-line diagnostic for each transformation failure.
pub open spec fn transform_error_message(e: TransformError) -> Seq<char> {
    match e {
        TransformError::EmptyInput => "Input was an empty string."@,
        TransformError::CsvParse(c) => "malformed CSV: record "@ + dec_of(c.row as nat)
            + " has "@ + dec_of(c.found as nat) + " fields, expected "@ + dec_of(
            c.expected as nat,
        ),
    }
}

impl TransformError {
    /// Renders the diagnostic line; it always names the failure, and for
    /// malformed CSV also the offending record and both field counts.
    pub fn message(&self) -> (r: String)
        ensures
            r@ == transform_error_message(*self),
    {
        match self {
            TransformError::EmptyInput => String::from_str("Input was an empty string."),
            TransformError::CsvParse(c) => {
                let mut out = String::from_str("malformed CSV: record ");
                let row = usize_to_string(c.row);
                out.append(row.as_str());
                out.append(" has ");
                let found = usize_to_string(c.found);
                out.append(found.as_str());
                out.append(" fields, expected ");
                let expected = usize_to_string(c.expected);
                out.append(expected.as_str());
                out
            },
        }
    }
}

/// What `str::to_lowercase` returns; the result depends on the characters
/// alone.
pub uninterp spec fn lower_of(s: Seq<char>) -> Seq<char>;

/// What `str::to_uppercase` returns; the result depends on the characters
/// alone.
pub uninterp spec fn upper_of(s: Seq<char>) -> Seq<char>;

/// What `slug::slugify` returns; the result depends on the characters
/// alone.
pub uninterp spec fn slug_of(s: Seq<char>) -> Seq<char>;

/// A character that may appear in a slug: a lowercase ASCII letter, an
/// ASCII digit, or a hyphen.
pub open spec fn is_slug_char(c: char) -> bool {
    ('a' as u32 <= c as u32 && c as u32 <= 'z' as u32) || ('0' as u32 <= c as u32 && c as u32
        <= '9' as u32) || c == '-'
}

/// The shape of a URL-safe slug: only slug characters, no hyphen at either
/// end, and never two hyphens in a row.
pub open spec fn is_slug_seq(s: Seq<char>) -> bool {
    &&& forall|i: int| 0 <= i < s.len() ==> is_slug_char(#[trigger] s[i])
    &&& s.len() > 0 ==> s[0] != '-' && s[s.len() - 1] != '-'
    &&& forall|i: int| 0 <= i < s.len() - 1 ==> !(#[trigger] s[i] == '-' && s[i + 1] == '-')
}

/// Relies on str::to_lowercase: the result depends on the characters alone.
#[verifier::external_body]
fn lowercase_str(s: &str) -> (r: String)
    ensures
        r@ == lower_of(s@),
{
    s.to_lowercase()
}

/// Relies on str::to_uppercase: the result depends on the characters alone.
#[verifier::external_body]
fn uppercase_str(s: &str) -> (r: String)
    ensures
        r@ == upper_of(s@),
{
    s.to_uppercase()
}

/// Relies on slug::slugify: the result depends on the characters alone and,
/// as the crate documents, consists of `a-z`, `0-9` and `-`, never holds two
/// `-` in a row, and never starts or ends with `-`.
#[verifier::external_body]
fn slug_str(s: &str) -> (r: String)
    ensures
        r@ == slug_of(s@),
        is_slug_seq(r@),
{
    slug::slugify(s)
}

/// A transformation result with the produced string replaced by its
/// character sequence, for use in contracts.
pub open spec fn res_view(r: Result<String, TransformError>) -> Result<
    Seq<char>,
    TransformError,
> {
    match r {
        Ok(s) => Ok(s@),
        Err(e) => Err(e),
    }
}

/// What the lowercase transformation returns.
pub open spec fn lower_spec(s: Seq<char>) -> Result<Seq<char>, TransformError> {
    if is_blank(s) {
        Err(TransformError::EmptyInput)
    } else {
        Ok(lower_of(s))
    }
}

/// What the uppercase transformation returns.
pub open spec fn upper_spec(s: Seq<char>) -> Result<Seq<char>, TransformError> {
    if is_blank(s) {
        Err(TransformError::EmptyInput)
    } else {
        Ok(upper_of(s))
    }
}

/// The input with every ASCII space character removed; all other
/// characters, other whitespace included, are kept in order.
pub open spec fn no_spaces_of(s: Seq<char>) -> Seq<char> {
    s.filter(|c: char| c != ' ')
}

/// What the space-removal transformation returns.
pub open spec fn no_spaces_spec(s: Seq<char>) -> Result<Seq<char>, TransformError> {
    if is_blank(s) {
        Err(TransformError::EmptyInput)
    } else {
        Ok(no_spaces_of(s))
    }
}

/// What the slug transformation returns.
pub open spec fn slug_spec(s: Seq<char>) -> Result<Seq<char>, TransformError> {
    if is_blank(s) {
        Err(TransformError::EmptyInput)
    } else {
        Ok(slug_of(s))
    }
}

/// What `transform` returns for each command on each input: blank input is
/// always rejected, and otherwise the requested transformation is applied.
pub open spec fn transform_spec(c: Command, s: Seq<char>) -> Result<Seq<char>, TransformError>
    recommends
        c != Command::Exit,
{
    match c {
        Command::Lowercase => lower_spec(s),
        Command::Uppercase => upper_spec(s),
        Command::NoSpaces => no_spaces_spec(s),
        Command::Slugify => slug_spec(s),
        Command::Csv => csv_spec(s),
        Command::Exit => arbitrary(),
    }
}

/// Case-folds the whole input to lowercase; rejects blank input.
pub fn to_lowercase(user_string: &str) -> (r: Result<String, TransformError>)
    ensures
        res_view(r) == lower_spec(user_string@),
{
    if validate_input(user_string) {
        Ok(lowercase_str(user_string))
    } else {
        Err(TransformError::EmptyInput)
    }
}

/// Case-folds the whole input to uppercase; rejects blank input.
pub fn to_uppercase(user_string: &str) -> (r: Result<String, TransformError>)
    ensures
        res_view(r) == upper_spec(user_string@),
{
    if validate_input(user_string) {
        Ok(uppercase_str(user_string))
    } else {
        Err(TransformError::EmptyInput)
    }
}

/// Removes every ASCII space character (and no other whitespace); rejects
/// blank input.
pub fn remove_spaces(user_string: &str) -> (r: Result<String, TransformError>)
    ensures
        res_view(r) == no_spaces_spec(user_string@),
{
    if !validate_input(user_string) {
        return Err(TransformError::EmptyInput);
    }
    let n: usize = user_string.unicode_len();
    let mut out = String::new();
    let mut i: usize = 0;
    while i < n
        invariant
            i <= n,
            n == user_string@.len(),
            out@ == user_string@.subrange(0, i as int).filter(|c: char| c != ' '),
        decreases n - i,
    {
        let c = user_string.get_char(i);
        if c != ' ' {
            push_char(&mut out, c);
        }
        proof {
            let pred = |c: char| c != ' ';
            let pre = user_string@.subrange(0, i + 1);
            assert(pre.drop_last() =~= user_string@.subrange(0, i as int));
            assert(pre.last() == user_string@[i as int]);
            reveal(Seq::filter);
            assert(pre.filter(pred) == if pred(pre.last()) {
                pre.drop_last().filter(pred).push(pre.last())
            } else {
                pre.drop_last().filter(pred)
            });
        }
        i = i + 1;
    }
    proof {
        assert(user_string@.subrange(0, n as int) =~= user_string@);
    }
    Ok(out)
}

/// Renders the input as a URL-safe slug; rejects blank input.
pub fn to_slugify(user_string: &str) -> (r: Result<String, TransformError>)
    ensures
        res_view(r) == slug_spec(user_string@),
        r is Ok ==> is_slug_seq(r->Ok_0@),
{
    if validate_input(user_string) {
        Ok(slug_str(user_string))
    } else {
        Err(TransformError::EmptyInput)
    }
}

/// Applies the transformation a command names. `Exit` ends a session
/// instead of transforming anything, so it never arrives here.
pub fn transform(transformation: Command, user_string: &str) -> (r: Result<
    String,
    TransformError,
>)
    requires
        transformation != Command::Exit,
    ensures
        res_view(r) == transform_spec(transformation, user_string@),
{
    match transformation {
        Command::Lowercase => to_lowercase(user_string),
        Command::Uppercase => to_uppercase(user_string),
        Command::NoSpaces => remove_spaces(user_string),
        Command::Slugify => to_slugify(user_string),
        Command::Csv => print_csv(user_string),
        Command::Exit => vstd::pervasive::unreached(),
    }
}

/// Law: the space-removal transformation leaves no ASCII space behind.
pub proof fn lemma_no_spaces_free_of_spaces(s: Seq<char>)
    ensures
        forall|i: int| 0 <= i < no_spaces_of(s).len() ==> #[trigger] no_spaces_of(s)[i] != ' ',
{
    broadcast use vstd::seq_lib::group_filter_ensures;

    assert forall|i: int| 0 <= i < no_spaces_of(s).len() implies #[trigger] no_spaces_of(s)[i]
        != ' ' by {
        s.lemma_filter_pred(|c: char| c != ' ', i);
    }
}

/// A sequence every element of which satisfies the predicate is left
/// unchanged by filtering with it.
proof fn lemma_filter_fixed_point<A>(s: Seq<A>, pred: spec_fn(A) -> bool)
    requires
        forall|i: int| 0 <= i < s.len() ==> pred(#[trigger] s[i]),
    ensures
        s.filter(pred) == s,
    decreases s.len(),
{
    reveal(Seq::filter);
    if s.len() == 0 {
        assert(s.filter(pred) =~= s);
    } else {
        lemma_filter_fixed_point(s.drop_last(), pred);
        assert(pred(s.last()));
        assert(s.filter(pred) =~= s);
    }
}

/// Law: removing spaces twice yields the same result as removing them
/// once.
pub proof fn lemma_no_spaces_idempotent(s: Seq<char>)
    ensures
        no_spaces_of(no_spaces_of(s)) == no_spaces_of(s),
{
    lemma_no_spaces_free_of_spaces(s);
    lemma_filter_fixed_point(no_spaces_of(s), |c: char| c != ' ');
}

/// Law: blank input is rejected with the same error by every
/// transformation, whichever command was requested.
pub proof fn lemma_blank_input_uniformly_rejected(c: Command, s: Seq<char>)
    requires
        c != Command::Exit,
        is_blank(s),
    ensures
        transform_spec(c, s) == Err::<Seq<char>, TransformError>(TransformError::EmptyInput),
{
}

} // verus!
