//! The ILP error-code taxonomy.
//!
//! An error code is a three-byte ASCII token such as `F01` or `T04`.  Its
//! first byte names its class: `F` for final, `T` for temporary, `R` for
//! relative; every other first byte is an unknown class, which still parses
//! and round-trips verbatim.

use vstd::prelude::*;

verus! {

/// The class of an ILP error code, determined by its first byte alone.
#[derive(Clone, Copy, Debug, PartialEq, Eq, Structural)]
pub enum ErrorClass {
    Final,
    Temporary,
    Relative,
    Unknown,
}

/// A three-byte ASCII ILP error code.
#[derive(Clone, Copy, Debug)]
pub struct ErrorCode {
    bytes: [u8; 3],
}

/// The class that a code whose bytes are `code` belongs to.
pub open spec fn spec_class(code: Seq<u8>) -> ErrorClass
    recommends
        code.len() == 3,
{
    if code[0] == 70 {
        ErrorClass::Final
    } else if code[0] == 84 {
        ErrorClass::Temporary
    } else if code[0] == 82 {
        ErrorClass::Relative
    } else {
        ErrorClass::Unknown
    }
}

/// True of a byte sequence that can be the bytes of an [`ErrorCode`]:
/// exactly three bytes, each ASCII.
pub open spec fn code_bytes_wf(code: Seq<u8>) -> bool {
    &&& code.len() == 3
    &&& forall|i: int| 0 <= i < 3 ==> code[i] <= 127
}

impl View for ErrorCode {
    type V = Seq<u8>;

    closed spec fn view(&self) -> Seq<u8> {
        self.bytes@
    }
}

impl ErrorCode {
    /// Every error code holds exactly three ASCII bytes.
    #[verifier::type_invariant]
    pub open spec fn inv(self) -> bool {
        code_bytes_wf(self@)
    }

    pub fn new(bytes: [u8; 3]) -> (r: ErrorCode)
        requires
            forall|i: int| 0 <= i < 3 ==> bytes@[i] <= 127,
        ensures
            r@ == bytes@,
    {
        ErrorCode { bytes }
    }

    /// The three bytes of the code.
    pub fn as_bytes(&self) -> (r: [u8; 3])
        ensures
            r@ == self@,
    {
        self.bytes
    }

    /// The class of the code, read from its first byte.
    pub fn class(self) -> (r: ErrorClass)
        ensures
            r == spec_class(self@),
    {
        if self.bytes[0] == 70 {
            ErrorClass::Final
        } else if self.bytes[0] == 84 {
            ErrorClass::Temporary
        } else if self.bytes[0] == 82 {
            ErrorClass::Relative
        } else {
            ErrorClass::Unknown
        }
    }

    /// The code as text, for instance `F01`.
    pub fn display_string(&self) -> (r: String)
        ensures
            r@.len() == 3,
            forall|i: int| 0 <= i < 3 ==> r@[i] == self@[i] as char,
    {
        proof {
            use_type_invariant(self);
        }
        let mut v: Vec<u8> = Vec::new();
        v.push(self.bytes[0]);
        v.push(self.bytes[1]);
        v.push(self.bytes[2]);
        assert(v@ =~= self@);
        ascii_bytes_to_string(&v)
    }

    /// The code as a debugging string, for instance `ErrorCode("F01")`.
    pub fn debug_string(&self) -> (r: String)
        ensures
            r@ == "ErrorCode(\""@ + seq![
                self@[0] as char,
                self@[1] as char,
                self@[2] as char,
            ] + "\")"@,
    {
        let mut s = String::from_str("ErrorCode(\"");
        let code = self.display_string();
        s.append(code.as_str());
        s.append("\")");
        assert(s@ =~= "ErrorCode(\""@ + seq![
            self@[0] as char,
            self@[1] as char,
            self@[2] as char,
        ] + "\")"@);
        s
    }

    // Final errors:

    pub fn f00_bad_request() -> (r: ErrorCode)
        ensures
            r@ == seq![70u8, 48u8, 48u8],
    {
        ErrorCode { bytes: [70, 48, 48] }
    }

    pub fn f01_invalid_packet() -> (r: ErrorCode)
        ensures
            r@ == seq![70u8, 48u8, 49u8],
    {
        ErrorCode { bytes: [70, 48, 49] }
    }

    pub fn f02_unreachable() -> (r: ErrorCode)
        ensures
            r@ == seq![70u8, 48u8, 50u8],
    {
        ErrorCode { bytes: [70, 48, 50] }
    }

    pub fn f03_invalid_amount() -> (r: ErrorCode)
        ensures
            r@ == seq![70u8, 48u8, 51u8],
    {
        ErrorCode { bytes: [70, 48, 51] }
    }

    pub fn f04_insufficient_destination_amount() -> (r: ErrorCode)
        ensures
            r@ == seq![70u8, 48u8, 52u8],
    {
        ErrorCode { bytes: [70, 48, 52] }
    }

    pub fn f05_wrong_condition() -> (r: ErrorCode)
        ensures
            r@ == seq![70u8, 48u8, 53u8],
    {
        ErrorCode { bytes: [70, 48, 53] }
    }

    pub fn f06_unexpected_payment() -> (r: ErrorCode)
        ensures
            r@ == seq![70u8, 48u8, 54u8],
    {
        ErrorCode { bytes: [70, 48, 54] }
    }

    pub fn f07_cannot_receive() -> (r: ErrorCode)
        ensures
            r@ == seq![70u8, 48u8, 55u8],
    {
        ErrorCode { bytes: [70, 48, 55] }
    }

    pub fn f08_amount_too_large() -> (r: ErrorCode)
        ensures
            r@ == seq![70u8, 48u8, 56u8],
    {
        ErrorCode { bytes: [70, 48, 56] }
    }

    pub fn f09_invalid_peer_response() -> (r: ErrorCode)
        ensures
            r@ == seq![70u8, 48u8, 57u8],
    {
        ErrorCode { bytes: [70, 48, 57] }
    }

    pub fn f99_application_error() -> (r: ErrorCode)
        ensures
            r@ == seq![70u8, 57u8, 57u8],
    {
        ErrorCode { bytes: [70, 57, 57] }
    }

    // Temporary errors:

    pub fn t00_internal_error() -> (r: ErrorCode)
        ensures
            r@ == seq![84u8, 48u8, 48u8],
    {
        ErrorCode { bytes: [84, 48, 48] }
    }

    pub fn t01_peer_unreachable() -> (r: ErrorCode)
        ensures
            r@ == seq![84u8, 48u8, 49u8],
    {
        ErrorCode { bytes: [84, 48, 49] }
    }

    pub fn t02_peer_busy() -> (r: ErrorCode)
        ensures
            r@ == seq![84u8, 48u8, 50u8],
    {
        ErrorCode { bytes: [84, 48, 50] }
    }

    pub fn t03_connector_busy() -> (r: ErrorCode)
        ensures
            r@ == seq![84u8, 48u8, 51u8],
    {
        ErrorCode { bytes: [84, 48, 51] }
    }

    pub fn t04_insufficient_liquidity() -> (r: ErrorCode)
        ensures
            r@ == seq![84u8, 48u8, 52u8],
    {
        ErrorCode { bytes: [84, 48, 52] }
    }

    pub fn t05_rate_limited() -> (r: ErrorCode)
        ensures
            r@ == seq![84u8, 48u8, 53u8],
    {
        ErrorCode { bytes: [84, 48, 53] }
    }

    pub fn t99_application_error() -> (r: ErrorCode)
        ensures
            r@ == seq![84u8, 57u8, 57u8],
    {
        ErrorCode { bytes: [84, 57, 57] }
    }

    // Relative errors:

    pub fn r00_transfer_timed_out() -> (r: ErrorCode)
        ensures
            r@ == seq![82u8, 48u8, 48u8],
    {
        ErrorCode { bytes: [82, 48, 48] }
    }

    pub fn r01_insufficient_source_amount() -> (r: ErrorCode)
        ensures
            r@ == seq![82u8, 48u8, 49u8],
    {
        ErrorCode { bytes: [82, 48, 49] }
    }

    pub fn r02_insufficient_timeout() -> (r: ErrorCode)
        ensures
            r@ == seq![82u8, 48u8, 50u8],
    {
        ErrorCode { bytes: [82, 48, 50] }
    }

    pub fn r99_application_error() -> (r: ErrorCode)
        ensures
            r@ == seq![82u8, 57u8, 57u8],
    {
        ErrorCode { bytes: [82, 57, 57] }
    }
}

/// The class of a code is a function of its first byte alone: two codes that
/// agree on the first byte belong to the same class.
pub proof fn lemma_class_depends_on_first_byte(a: Seq<u8>, b: Seq<u8>)
    requires
        a.len() == 3,
        b.len() == 3,
        a[0] == b[0],
    ensures
        spec_class(a) == spec_class(b),
{
}

/// Relies on `String::from_utf8`: ASCII bytes decode to one `char` per byte.
#[verifier::external_body]
fn ascii_bytes_to_string(bytes: &Vec<u8>) -> (r: String)
    requires
        forall|i: int| 0 <= i < bytes@.len() ==> bytes@[i] <= 127,
    ensures
        r@.len() == bytes@.len(),
        forall|i: int| 0 <= i < bytes@.len() ==> r@[i] == bytes@[i] as char,
{
    String::from_utf8(bytes.clone()).unwrap_or_default()
}

} // verus!
