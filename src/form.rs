use vstd::prelude::*;
use vstd::string::{StrSliceExecFns, StringExecFns};

verus! {

/// Why a submitted form cannot be turned into a request: the client's fault,
/// answered with a 4xx status before the store is touched.
#[derive(Debug, Clone, Copy, PartialEq, Eq, Structural)]
pub enum ClientInputError {
    /// The request does not declare a form-encoded body.
    NotAForm,
    /// The required field is absent.
    MissingField,
    /// The required field is given more than once.
    DuplicateField,
    /// The `id` field is not a decimal number that fits in `u32`.
    InvalidId,
}

/// The name/value pairs that form decoding finds in a request body, in order.
pub uninterp spec fn form_fields_of(body: Seq<u8>) -> Seq<(Seq<char>, Seq<char>)>;

/// The abstract contents of decoded pairs.
pub open spec fn pairs_view(v: Seq<(String, String)>) -> Seq<(Seq<char>, Seq<char>)> {
    v.map_values(|p: (String, String)| (p.0@, p.1@))
}

/// Relies on serde_urlencoded::from_bytes, decoding into a list of pairs:
/// the result is the body's name/value pairs, which depend on the body alone.
/// Decoding into string pairs never fails (each part becomes a string, each
/// pair has two parts), so the error branch is never taken.
#[verifier::external_body]
fn decode_form(body: &[u8]) -> (r: Vec<(String, String)>)
    ensures
        pairs_view(r@) == form_fields_of(body@),
{
    serde_urlencoded::from_bytes::<Vec<(String, String)>>(body).unwrap_or_default()
}

/// The values given for field `name`, in order.
pub open spec fn values_of(fields: Seq<(Seq<char>, Seq<char>)>, name: Seq<char>) -> Seq<Seq<char>>
    decreases fields.len(),
{
    if fields.len() == 0 {
        seq![]
    } else {
        let rest = values_of(fields.drop_last(), name);
        if fields.last().0 == name {
            rest.push(fields.last().1)
        } else {
            rest
        }
    }
}

/// A required field: its single value, or why there is none.
pub open spec fn required_field(fields: Seq<(Seq<char>, Seq<char>)>, name: Seq<char>) -> Result<
    Seq<char>,
    ClientInputError,
> {
    let vs = values_of(fields, name);
    if vs.len() == 0 {
        Err(ClientInputError::MissingField)
    } else if vs.len() > 1 {
        Err(ClientInputError::DuplicateField)
    } else {
        Ok(vs[0])
    }
}

/// Looks up the required field `name` among decoded pairs.
pub fn required_value(fields: &Vec<(String, String)>, name: &str) -> (r: Result<
    String,
    ClientInputError,
>)
    ensures
        match r {
            Ok(v) => required_field(pairs_view(fields@), name@) == Ok::<Seq<char>, ClientInputError>(v@),
            Err(e) => required_field(pairs_view(fields@), name@) == Err::<Seq<char>, ClientInputError>(e),
        },
{
    let key = String::from_str(name);
    let mut found: Option<String> = None;
    let mut count: usize = 0;
    let mut i: usize = 0;
    while i < fields.len()
        invariant
            i <= fields@.len(),
            key@ == name@,
            count <= i,
            count == values_of(pairs_view(fields@.take(i as int)), name@).len(),
            count >= 1 ==> (found matches Some(f) && f@ == values_of(
                pairs_view(fields@.take(i as int)),
                name@,
            )[0]),
        decreases fields@.len() - i,
    {
        proof {
            let before = pairs_view(fields@.take(i as int));
            let after = pairs_view(fields@.take(i + 1));
            assert(after.drop_last() =~= before);
            assert(after.last() == (fields@[i as int].0@, fields@[i as int].1@));
        }
        if fields[i].0 == key {
            if count == 0 {
                found = Some(fields[i].1.clone());
            }
            count = count + 1;
        }
        i = i + 1;
    }
    assert(fields@.take(fields@.len() as int) =~= fields@);
    if count == 0 {
        Err(ClientInputError::MissingField)
    } else if count > 1 {
        Err(ClientInputError::DuplicateField)
    } else {
        match found {
            Some(v) => Ok(v),
            None => Err(ClientInputError::MissingField),
        }
    }
}

/// Whether `c` is a decimal digit.
pub open spec fn is_digit(c: char) -> bool {
    '0' <= c && c <= '9'
}

/// The value of a decimal digit.
pub open spec fn digit_value(c: char) -> nat {
    (c as u32 - '0' as u32) as nat
}

/// The number that a string of decimal digits denotes.
pub open spec fn digits_value(s: Seq<char>) -> nat
    decreases s.len(),
{
    if s.len() == 0 {
        0
    } else {
        digits_value(s.drop_last()) * 10 + digit_value(s.last())
    }
}

/// The digits of an unsigned number: the text without one leading `+`.
pub open spec fn unsigned_digits(s: Seq<char>) -> Seq<char> {
    if s.len() > 0 && s[0] == '+' {
        s.drop_first()
    } else {
        s
    }
}

/// The id that a form value denotes: an optional `+` and at least one decimal
/// digit, with a value that fits in `u32`.
pub open spec fn id_of(s: Seq<char>) -> Option<u32> {
    let d = unsigned_digits(s);
    if d.len() > 0 && (forall|i: int| 0 <= i < d.len() ==> is_digit(#[trigger] d[i]))
        && digits_value(d) <= u32::MAX {
        Some(digits_value(d) as u32)
    } else {
        None
    }
}

proof fn lemma_prefix_value_le(s: Seq<char>, k: int)
    requires
        0 <= k <= s.len(),
    ensures
        digits_value(s.take(k)) <= digits_value(s),
    decreases s.len(),
{
    if k < s.len() {
        assert(s.drop_last().take(k) =~= s.take(k));
        lemma_prefix_value_le(s.drop_last(), k);
    } else {
        assert(s.take(k) =~= s);
    }
}

/// Reads an id from a form value.
pub fn parse_id(s: &str) -> (r: Option<u32>)
    ensures
        r == id_of(s@),
{
    let n = s.unicode_len();
    let mut start: usize = 0;
    if n > 0 && s.get_char(0) == '+' {
        start = 1;
    }
    let ghost d = unsigned_digits(s@);
    assert(d =~= s@.subrange(start as int, n as int));
    if start == n {
        return None;
    }
    let mut acc: u64 = 0;
    let mut i: usize = start;
    while i < n
        invariant
            start <= i <= n,
            n == s@.len(),
            d == s@.subrange(start as int, n as int),
            d == unsigned_digits(s@),
            forall|j: int| 0 <= j < i - start ==> is_digit(#[trigger] d[j]),
            acc == digits_value(d.take(i - start)),
            acc <= u32::MAX,
        decreases n - i,
    {
        let c = s.get_char(i);
        assert(d[i - start] == c);
        if !('0' <= c && c <= '9') {
            assert(!is_digit(d[i - start]));
            return None;
        }
        proof {
            let k = i - start;
            assert(d.take(k + 1).drop_last() =~= d.take(k));
            assert(d.take(k + 1).last() == c);
            assert(digits_value(d.take(k + 1)) == digits_value(d.take(k)) * 10 + digit_value(c));
        }
        acc = acc * 10 + (c as u32 - '0' as u32) as u64;
        if acc > u32::MAX as u64 {
            proof {
                lemma_prefix_value_le(d, i - start + 1);
            }
            return None;
        }
        i = i + 1;
    }
    assert(d.take(n - start) =~= d);
    Some(acc as u32)
}

/// The fields of an add request.
pub struct AddParams {
    pub text: String,
}

/// The fields of a delete request.
pub struct DeleteParams {
    pub id: u32,
}

/// The name of the add form's field.
pub const TEXT_FIELD: &'static str = "text";

/// The name of the delete form's field.
pub const ID_FIELD: &'static str = "id";

/// What an add form with these fields asks for: the text to store.
pub open spec fn add_request_of(fields: Seq<(Seq<char>, Seq<char>)>) -> Result<Seq<char>, ClientInputError> {
    required_field(fields, TEXT_FIELD@)
}

/// What a delete form with these fields asks for: the id to remove.
pub open spec fn delete_request_of(fields: Seq<(Seq<char>, Seq<char>)>) -> Result<u32, ClientInputError> {
    match required_field(fields, ID_FIELD@) {
        Err(e) => Err(e),
        Ok(v) => match id_of(v) {
            Some(id) => Ok(id),
            None => Err(ClientInputError::InvalidId),
        },
    }
}

/// Checks decoded add-form fields.
pub fn add_params_from_fields(fields: &Vec<(String, String)>) -> (r: Result<
    AddParams,
    ClientInputError,
>)
    ensures
        match r {
            Ok(p) => add_request_of(pairs_view(fields@)) == Ok::<Seq<char>, ClientInputError>(p.text@),
            Err(e) => add_request_of(pairs_view(fields@)) == Err::<Seq<char>, ClientInputError>(e),
        },
{
    match required_value(fields, TEXT_FIELD) {
        Ok(text) => Ok(AddParams { text }),
        Err(e) => Err(e),
    }
}

/// Checks decoded delete-form fields.
pub fn delete_params_from_fields(fields: &Vec<(String, String)>) -> (r: Result<
    DeleteParams,
    ClientInputError,
>)
    ensures
        match r {
            Ok(p) => delete_request_of(pairs_view(fields@)) == Ok::<u32, ClientInputError>(p.id),
            Err(e) => delete_request_of(pairs_view(fields@)) == Err::<u32, ClientInputError>(e),
        },
{
    match required_value(fields, ID_FIELD) {
        Ok(v) => match parse_id(v.as_str()) {
            Some(id) => Ok(DeleteParams { id }),
            None => Err(ClientInputError::InvalidId),
        },
        Err(e) => Err(e),
    }
}

/// Reads an add form from a request body: the result is what its fields ask
/// for.
pub fn parse_add_form(body: &[u8]) -> (r: Result<AddParams, ClientInputError>)
    ensures
        match r {
            Ok(p) => add_request_of(form_fields_of(body@)) == Ok::<Seq<char>, ClientInputError>(p.text@),
            Err(e) => add_request_of(form_fields_of(body@)) == Err::<Seq<char>, ClientInputError>(e),
        },
{
    let fields = decode_form(body);
    add_params_from_fields(&fields)
}

/// Reads a delete form from a request body: the result is what its fields ask
/// for.
pub fn parse_delete_form(body: &[u8]) -> (r: Result<DeleteParams, ClientInputError>)
    ensures
        match r {
            Ok(p) => delete_request_of(form_fields_of(body@)) == Ok::<u32, ClientInputError>(p.id),
            Err(e) => delete_request_of(form_fields_of(body@)) == Err::<u32, ClientInputError>(e),
        },
{
    let fields = decode_form(body);
    delete_params_from_fields(&fields)
}

/// The media type that a form post declares.
pub const FORM_CONTENT_TYPE: &'static str = "application/x-www-form-urlencoded";

/// A character with ASCII upper case letters made lower case.
pub open spec fn ascii_lower(c: char) -> char {
    if 'A' <= c && c <= 'Z' {
        ((c as u8) + 32) as char
    } else {
        c
    }
}

/// Whether a request's media type (without its parameters) names a form
/// body, ignoring ASCII case.
pub open spec fn is_form_type(ct: Seq<char>) -> bool {
    &&& ct.len() == FORM_CONTENT_TYPE@.len()
    &&& forall|i: int| 0 <= i < ct.len() ==> ascii_lower(#[trigger] ct[i]) == FORM_CONTENT_TYPE@[i]
}

/// Whether a request with this media type carries a form body.
pub fn is_form_content_type(ct: &str) -> (r: bool)
    ensures
        r == is_form_type(ct@),
{
    let want = FORM_CONTENT_TYPE;
    let n = ct.unicode_len();
    if n != want.unicode_len() {
        return false;
    }
    let mut i: usize = 0;
    while i < n
        invariant
            i <= n,
            n == ct@.len(),
            n == want@.len(),
            want@ == FORM_CONTENT_TYPE@,
            forall|j: int| 0 <= j < i ==> ascii_lower(#[trigger] ct@[j]) == want@[j],
        decreases n - i,
    {
        let c = ct.get_char(i);
        let lower = if 'A' <= c && c <= 'Z' {
            ((c as u8) + 32) as char
        } else {
            c
        };
        assert(lower == ascii_lower(ct@[i as int]));
        if lower != want.get_char(i) {
            return false;
        }
        i = i + 1;
    }
    true
}

} // verus!
