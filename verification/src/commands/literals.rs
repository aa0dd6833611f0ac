//! The fixed texts of the modem's answers, as bytes.

use vstd::prelude::*;
use vstd::string::StringSliceAdditionalSpecFns;

verus! {

/// `OK`
pub open spec fn ok() -> Seq<u8> {
    seq![79u8, 75u8]
}

/// The literal `"OK"` holds the bytes of [`ok`].
pub proof fn lemma_ok()
    ensures
        "OK".spec_bytes() == ok(),
{
    reveal_strlit("OK");
    broadcast use vstd::string::is_ascii_spec_bytes;

    assert(vstd::string::is_ascii("OK"));
    assert("OK".spec_bytes() =~= ok());
}

/// `+CGNSINF:`
pub open spec fn cgnsinf_header() -> Seq<u8> {
    seq![43u8, 67u8, 71u8, 78u8, 83u8, 73u8, 78u8, 70u8, 58u8, 32u8]
}

/// The literal `"+CGNSINF: "` holds the bytes of [`cgnsinf_header`].
pub proof fn lemma_cgnsinf_header()
    ensures
        "+CGNSINF: ".spec_bytes() == cgnsinf_header(),
{
    reveal_strlit("+CGNSINF: ");
    broadcast use vstd::string::is_ascii_spec_bytes;

    assert(vstd::string::is_ascii("+CGNSINF: "));
    assert("+CGNSINF: ".spec_bytes() =~= cgnsinf_header());
}

/// `+CIPRXGET:`
pub open spec fn ciprxget_header() -> Seq<u8> {
    seq![43u8, 67u8, 73u8, 80u8, 82u8, 88u8, 71u8, 69u8, 84u8, 58u8, 32u8]
}

/// The literal `"+CIPRXGET: "` holds the bytes of [`ciprxget_header`].
pub proof fn lemma_ciprxget_header()
    ensures
        "+CIPRXGET: ".spec_bytes() == ciprxget_header(),
{
    reveal_strlit("+CIPRXGET: ");
    broadcast use vstd::string::is_ascii_spec_bytes;

    assert(vstd::string::is_ascii("+CIPRXGET: "));
    assert("+CIPRXGET: ".spec_bytes() =~= ciprxget_header());
}

/// `,`
pub open spec fn comma() -> Seq<u8> {
    seq![44u8]
}

/// The literal `","` holds the bytes of [`comma`].
pub proof fn lemma_comma()
    ensures
        ",".spec_bytes() == comma(),
{
    reveal_strlit(",");
    broadcast use vstd::string::is_ascii_spec_bytes;

    assert(vstd::string::is_ascii(","));
    assert(",".spec_bytes() =~= comma());
}

/// `STATE:`
pub open spec fn state_header() -> Seq<u8> {
    seq![83u8, 84u8, 65u8, 84u8, 69u8, 58u8, 32u8]
}

/// The literal `"STATE: "` holds the bytes of [`state_header`].
pub proof fn lemma_state_header()
    ensures
        "STATE: ".spec_bytes() == state_header(),
{
    reveal_strlit("STATE: ");
    broadcast use vstd::string::is_ascii_spec_bytes;

    assert(vstd::string::is_ascii("STATE: "));
    assert("STATE: ".spec_bytes() =~= state_header());
}

/// `CONNECT FAIL`
pub open spec fn connect_fail() -> Seq<u8> {
    seq![67u8, 79u8, 78u8, 78u8, 69u8, 67u8, 84u8, 32u8, 70u8, 65u8, 73u8, 76u8]
}

/// The literal `"CONNECT FAIL"` holds the bytes of [`connect_fail`].
pub proof fn lemma_connect_fail()
    ensures
        "CONNECT FAIL".spec_bytes() == connect_fail(),
{
    reveal_strlit("CONNECT FAIL");
    broadcast use vstd::string::is_ascii_spec_bytes;

    assert(vstd::string::is_ascii("CONNECT FAIL"));
    assert("CONNECT FAIL".spec_bytes() =~= connect_fail());
}

/// `CONNECT OK`
pub open spec fn connect_ok() -> Seq<u8> {
    seq![67u8, 79u8, 78u8, 78u8, 69u8, 67u8, 84u8, 32u8, 79u8, 75u8]
}

/// `ALREADY CONNECT`
pub open spec fn already_connect() -> Seq<u8> {
    seq![65u8, 76u8, 82u8, 69u8, 65u8, 68u8, 89u8, 32u8, 67u8, 79u8, 78u8, 78u8, 69u8, 67u8, 84u8]
}

/// `+COPS:`
pub open spec fn cops_header() -> Seq<u8> {
    seq![43u8, 67u8, 79u8, 80u8, 83u8, 58u8, 32u8]
}

/// The literal `"+COPS: "` holds the bytes of [`cops_header`].
pub proof fn lemma_cops_header()
    ensures
        "+COPS: ".spec_bytes() == cops_header(),
{
    reveal_strlit("+COPS: ");
    broadcast use vstd::string::is_ascii_spec_bytes;

    assert(vstd::string::is_ascii("+COPS: "));
    assert("+COPS: ".spec_bytes() =~= cops_header());
}

/// `+CPSI:`
pub open spec fn cpsi_header() -> Seq<u8> {
    seq![43u8, 67u8, 80u8, 83u8, 73u8, 58u8, 32u8]
}

/// The literal `"+CPSI: "` holds the bytes of [`cpsi_header`].
pub proof fn lemma_cpsi_header()
    ensures
        "+CPSI: ".spec_bytes() == cpsi_header(),
{
    reveal_strlit("+CPSI: ");
    broadcast use vstd::string::is_ascii_spec_bytes;

    assert(vstd::string::is_ascii("+CPSI: "));
    assert("+CPSI: ".spec_bytes() =~= cpsi_header());
}

/// `+CSQ:`
pub open spec fn csq_header() -> Seq<u8> {
    seq![43u8, 67u8, 83u8, 81u8, 58u8, 32u8]
}

/// The literal `"+CSQ: "` holds the bytes of [`csq_header`].
pub proof fn lemma_csq_header()
    ensures
        "+CSQ: ".spec_bytes() == csq_header(),
{
    reveal_strlit("+CSQ: ");
    broadcast use vstd::string::is_ascii_spec_bytes;

    assert(vstd::string::is_ascii("+CSQ: "));
    assert("+CSQ: ".spec_bytes() =~= csq_header());
}

/// `+HTTPTOFS:`
pub open spec fn httptofs_header() -> Seq<u8> {
    seq![43u8, 72u8, 84u8, 84u8, 80u8, 84u8, 79u8, 70u8, 83u8, 58u8, 32u8]
}

/// The literal `"+HTTPTOFS: "` holds the bytes of [`httptofs_header`].
pub proof fn lemma_httptofs_header()
    ensures
        "+HTTPTOFS: ".spec_bytes() == httptofs_header(),
{
    reveal_strlit("+HTTPTOFS: ");
    broadcast use vstd::string::is_ascii_spec_bytes;

    assert(vstd::string::is_ascii("+HTTPTOFS: "));
    assert("+HTTPTOFS: ".spec_bytes() =~= httptofs_header());
}


} // verus!
