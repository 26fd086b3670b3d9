//! Identifiers, hashes, and storage keys of the finance records.
use vstd::prelude::*;
use vstd::string::StringExecFns;
use vstd::utf8::encode_utf8;

use crate::decimal::{decimal, write_i64};
use crate::json::Json;
use crate::outside::{
    hex_encode, hex_of, json_bytes, json_encode, parse_url, parsed_url, sha256, sha256_of, UrlParts,
    UrlText,
};
use crate::text::{chars_of, join2, same};

verus! {

broadcast use vstd::string::group_string_axioms;

/// An ASCII letter or digit.
pub open spec fn is_alphanumeric(c: char) -> bool {
    ('0' <= c <= '9') || ('A' <= c <= 'Z') || ('a' <= c <= 'z')
}

/// A hexadecimal digit, in either case.
pub open spec fn is_hex_digit(c: char) -> bool {
    ('0' <= c <= '9') || ('A' <= c <= 'F') || ('a' <= c <= 'f')
}

/// A character that an identifier may hold.
pub open spec fn is_id_char(c: char) -> bool {
    is_alphanumeric(c) || c == '-' || c == '_' || c == '.' || c == '@'
}

/// A finance identifier: one to 128 identifier characters.
pub open spec fn is_finance_id(s: Seq<char>) -> bool {
    0 < s.len() <= 128 && forall|i: int| 0 <= i < s.len() ==> is_id_char(#[trigger] s[i])
}

/// A finance hash: sixty-four hexadecimal digits.
pub open spec fn is_finance_hash(s: Seq<char>) -> bool {
    s.len() == 64 && forall|i: int| 0 <= i < s.len() ==> is_hex_digit(#[trigger] s[i])
}

/// A character that no origin may hold: a control character or a blank.
pub open spec fn is_unsafe_in_origin(c: char) -> bool {
    c as u32 <= 0x20 || c as u32 == 0x7f
}

/// A base URL: a web or socket scheme, a host, and nothing beyond an optional slash.
pub open spec fn is_base_url(url: UrlText) -> bool {
    &&& url.scheme == "http"@ || url.scheme == "https"@ || url.scheme == "ws"@ || url.scheme
        == "wss"@
    &&& url.host is Some
    &&& url.username.len() == 0
    &&& url.password is None
    &&& url.path == ""@ || url.path == "/"@
    &&& url.query is None
    &&& url.fragment is None
}

/// A finance origin: an identifier, or a text of at most 2048 bytes without blanks and
/// control characters that is a base URL.
pub open spec fn is_finance_origin(s: Seq<char>) -> bool {
    ||| is_finance_id(s)
    ||| {
        &&& s.len() > 0
        &&& encode_utf8(s).len() <= 2048
        &&& forall|i: int| 0 <= i < s.len() ==> !is_unsafe_in_origin(#[trigger] s[i])
        &&& parsed_url(s) matches Some(url) && is_base_url(url)
    }
}

/// Whether `value` is a finance identifier.
pub fn valid_finance_id(value: &str) -> (r: bool)
    ensures
        r == is_finance_id(value@),
{
    let cs = chars_of(value);
    if cs.len() == 0 || cs.len() > 128 {
        return false;
    }
    let mut i: usize = 0;
    while i < cs.len()
        invariant
            i <= cs@.len(),
            cs@ == value@,
            forall|j: int| 0 <= j < i ==> is_id_char(#[trigger] value@[j]),
        decreases cs.len() - i,
    {
        let c = cs[i];
        if !(('0' <= c && c <= '9') || ('A' <= c && c <= 'Z') || ('a' <= c && c <= 'z') || c == '-'
            || c == '_' || c == '.' || c == '@') {
            assert(!is_id_char(value@[i as int]));
            return false;
        }
        i = i + 1;
    }
    true
}

/// Whether `value` is a finance hash.
pub fn valid_finance_hash(value: &str) -> (r: bool)
    ensures
        r == is_finance_hash(value@),
{
    let cs = chars_of(value);
    if cs.len() != 64 {
        return false;
    }
    let mut i: usize = 0;
    while i < cs.len()
        invariant
            i <= cs@.len(),
            cs@ == value@,
            forall|j: int| 0 <= j < i ==> is_hex_digit(#[trigger] value@[j]),
        decreases cs.len() - i,
    {
        let c = cs[i];
        if !(('0' <= c && c <= '9') || ('A' <= c && c <= 'F') || ('a' <= c && c <= 'f')) {
            assert(!is_hex_digit(value@[i as int]));
            return false;
        }
        i = i + 1;
    }
    true
}

fn has_unsafe_in_origin(value: &str) -> (r: bool)
    ensures
        r == exists|i: int| 0 <= i < value@.len() && is_unsafe_in_origin(#[trigger] value@[i]),
{
    let cs = chars_of(value);
    let mut i: usize = 0;
    while i < cs.len()
        invariant
            i <= cs@.len(),
            cs@ == value@,
            forall|j: int| 0 <= j < i ==> !is_unsafe_in_origin(#[trigger] value@[j]),
        decreases cs.len() - i,
    {
        let u: u32 = cs[i] as u32;
        if u <= 0x20 || u == 0x7f {
            assert(is_unsafe_in_origin(value@[i as int]));
            return true;
        }
        i = i + 1;
    }
    false
}

/// Whether a URL that was parsed is a base URL.
pub fn base_url(url: &UrlParts) -> (r: bool)
    ensures
        r == is_base_url(url@),
{
    let scheme = url.scheme.as_str();
    let path = url.path.as_str();
    (same(scheme, "http") || same(scheme, "https") || same(scheme, "ws") || same(scheme, "wss"))
        && url.host.is_some() && url.username.as_str().is_empty() && url.password.is_none() && (
    same(path, "") || same(path, "/")) && url.query.is_none() && url.fragment.is_none()
}

/// Whether `value` is a finance origin.
pub fn valid_finance_origin(value: &str) -> (r: bool)
    ensures
        r == is_finance_origin(value@),
{
    if valid_finance_id(value) {
        return true;
    }
    if value.is_empty() || value.as_bytes().len() > 2048 || has_unsafe_in_origin(value) {
        return false;
    }
    match parse_url(value) {
        None => false,
        Some(url) => base_url(&url),
    }
}

// ---------------------------------------------------------------- hashes

/// The hash of an encoded request: the hexadecimal SHA-256 digest of its bytes.
pub open spec fn request_hash(encoded: Seq<u8>) -> Seq<char> {
    hex_of(sha256_of(encoded))
}

/// Hash a document by its encoding.
pub fn finance_hash(value: &Json) -> (r: String)
    ensures
        r@ == request_hash(json_bytes(value@)),
        is_finance_hash(r@),
{
    let encoded = json_encode(value);
    hash_encoded(encoded.as_slice())
}

/// Hash bytes: the hexadecimal SHA-256 digest of them.
pub fn hash_encoded(encoded: &[u8]) -> (r: String)
    ensures
        r@ == request_hash(encoded@),
        is_finance_hash(r@),
{
    let digest = sha256(encoded);
    proof {
        lemma_hex_is_hash(digest@);
    }
    hex_encode(digest.as_slice())
}

proof fn lemma_hex_is_hash(bytes: Seq<u8>)
    requires
        bytes.len() == 32,
    ensures
        is_finance_hash(hex_of(bytes)),
{
    let s = hex_of(bytes);
    assert forall|i: int| 0 <= i < s.len() implies is_hex_digit(#[trigger] s[i]) by {
        let b = bytes[i / 2];
        assert(b / 16 < 16);
        assert(b % 16 < 16);
    }
}

/// One party that a run may pay: who, in which role, and how much at most.
pub struct HoldBeneficiaryInput {
    pub user_id: String,
    pub role: String,
    pub max_amount: i64,
}

/// A beneficiary, as texts and a number.
pub struct Beneficiary {
    pub user_id: Seq<char>,
    pub role: Seq<char>,
    pub max_amount: int,
}

impl View for HoldBeneficiaryInput {
    type V = Beneficiary;

    open spec fn view(&self) -> Beneficiary {
        Beneficiary {
            user_id: self.user_id@,
            role: self.role@,
            max_amount: self.max_amount as int,
        }
    }
}

impl HoldBeneficiaryInput {
    /// A copy of the beneficiary.
    pub fn copy(&self) -> (r: Self)
        ensures
            r@ == self@,
    {
        HoldBeneficiaryInput {
            user_id: self.user_id.clone(),
            role: self.role.clone(),
            max_amount: self.max_amount,
        }
    }
}

/// The beneficiaries of a list.
pub open spec fn beneficiaries_of(list: Seq<HoldBeneficiaryInput>) -> Seq<Beneficiary> {
    list.map_values(|b: HoldBeneficiaryInput| b@)
}

/// A copy of a list of beneficiaries.
pub fn copy_beneficiaries(list: &Vec<HoldBeneficiaryInput>) -> (r: Vec<HoldBeneficiaryInput>)
    ensures
        beneficiaries_of(r@) == beneficiaries_of(list@),
{
    let mut out: Vec<HoldBeneficiaryInput> = Vec::new();
    let mut i: usize = 0;
    while i < list.len()
        invariant
            i <= list@.len(),
            out@.len() == i,
            forall|j: int| 0 <= j < i ==> (#[trigger] out@[j])@ == list@[j]@,
        decreases list.len() - i,
    {
        out.push(list[i].copy());
        i = i + 1;
    }
    assert(beneficiaries_of(out@) =~= beneficiaries_of(list@));
    out
}

/// What a beneficiary adds to the hashed plan: the user, a zero byte, the role, a zero
/// byte, the amount in decimal, and a line feed.
pub open spec fn plan_entry(b: Beneficiary) -> Seq<u8> {
    encode_utf8(b.user_id) + seq![0u8] + encode_utf8(b.role) + seq![0u8] + encode_utf8(
        decimal(b.max_amount),
    ) + seq![10u8]
}

/// The bytes of a beneficiary plan: its entries one after another.
pub open spec fn plan_bytes(list: Seq<Beneficiary>) -> Seq<u8>
    decreases list.len(),
{
    if list.len() == 0 {
        Seq::empty()
    } else {
        plan_bytes(list.drop_last()) + plan_entry(list.last())
    }
}

fn append_bytes(out: &mut Vec<u8>, more: &[u8])
    ensures
        final(out)@ == old(out)@ + more@,
{
    let mut i: usize = 0;
    let ghost before = out@;
    assert(out@ =~= before + more@.subrange(0, 0));
    while i < more.len()
        invariant
            i <= more@.len(),
            out@ == before + more@.subrange(0, i as int),
        decreases more.len() - i,
    {
        out.push(more[i]);
        assert(more@.subrange(0, i + 1) =~= more@.subrange(0, i as int).push(more@[i as int]));
        assert(out@ =~= before + more@.subrange(0, i + 1));
        i = i + 1;
    }
    assert(more@.subrange(0, more@.len() as int) =~= more@);
}

/// Hash a beneficiary plan.
pub fn finance_beneficiary_plan_hash(beneficiaries: &Vec<HoldBeneficiaryInput>) -> (r: String)
    ensures
        r@ == request_hash(plan_bytes(beneficiaries_of(beneficiaries@))),
{
    let mut bytes: Vec<u8> = Vec::new();
    let mut i: usize = 0;
    let ghost plan = beneficiaries_of(beneficiaries@);
    assert(plan.subrange(0, 0) =~= Seq::empty());
    assert(bytes@ =~= plan_bytes(plan.subrange(0, 0)));
    while i < beneficiaries.len()
        invariant
            i <= beneficiaries@.len(),
            plan == beneficiaries_of(beneficiaries@),
            bytes@ == plan_bytes(plan.subrange(0, i as int)),
        decreases beneficiaries.len() - i,
    {
        let entry = &beneficiaries[i];
        let ghost before = bytes@;
        append_bytes(&mut bytes, entry.user_id.as_str().as_bytes());
        bytes.push(0u8);
        append_bytes(&mut bytes, entry.role.as_str().as_bytes());
        bytes.push(0u8);
        append_bytes(&mut bytes, write_i64(entry.max_amount).as_str().as_bytes());
        bytes.push(10u8);
        let ghost upto = plan.subrange(0, i + 1);
        assert(upto.drop_last() =~= plan.subrange(0, i as int));
        assert(upto.last() == entry@);
        assert(bytes@ =~= before + plan_entry(entry@));
        i = i + 1;
    }
    assert(plan.subrange(0, plan.len() as int) =~= plan);
    hash_encoded(bytes.as_slice())
}

// ---------------------------------------------------------------- storage keys

/// The document key of a hold.
pub fn finance_hold_key(hold_id: &str) -> (r: String)
    ensures
        r@ == "Json::FinanceHold::"@ + hold_id@,
{
    join2("Json::FinanceHold::", hold_id)
}

/// The document key of a pool.
pub fn finance_pool_key(pool_id: &str) -> (r: String)
    ensures
        r@ == "Json::FinancePool::"@ + pool_id@,
{
    join2("Json::FinancePool::", pool_id)
}

/// The document key of a run's pool reservation.
pub fn finance_pool_reservation_key(run_id: &str) -> (r: String)
    ensures
        r@ == "Json::FinancePoolReservation::"@ + run_id@,
{
    join2("Json::FinancePoolReservation::", run_id)
}

/// The document key of a run's live debits. It shares no prefix with the pool and
/// reservation documents, so a scan of those never meets it.
pub fn finance_live_debit_key(run_id: &str) -> (r: String)
    ensures
        r@ == "Json::FinanceLiveDebit::"@ + run_id@,
{
    join2("Json::FinanceLiveDebit::", run_id)
}

/// The document key of a project's budget.
pub fn finance_project_budget_key(project_id: &str) -> (r: String)
    ensures
        r@ == "Json::FinanceProjectBudget::"@ + project_id@,
{
    join2("Json::FinanceProjectBudget::", project_id)
}

/// The document key of a payout.
pub fn finance_payout_key(payout_id: &str) -> (r: String)
    ensures
        r@ == "Json::FinancePayout::"@ + payout_id@,
{
    join2("Json::FinancePayout::", payout_id)
}

/// Two records of one family have the same key only where they have the same identifier.
pub proof fn law_keys_of_a_family_are_distinct(family: Seq<char>, a: Seq<char>, b: Seq<char>)
    requires
        family + a == family + b,
    ensures
        a == b,
{
    assert(a =~= (family + a).subrange(family.len() as int, (family + a).len() as int));
    assert(b =~= (family + b).subrange(family.len() as int, (family + b).len() as int));
}

/// The key of a live debit is no key of a pool or of a reservation, whatever the
/// identifiers.
pub proof fn law_live_debits_stay_out_of_pool_scans(run: Seq<char>, other: Seq<char>)
    ensures
        "Json::FinanceLiveDebit::"@ + run != "Json::FinancePool::"@ + other,
        "Json::FinanceLiveDebit::"@ + run != "Json::FinancePoolReservation::"@ + other,
{
    reveal_strlit("Json::FinanceLiveDebit::");
    reveal_strlit("Json::FinancePool::");
    reveal_strlit("Json::FinancePoolReservation::");
    assert(("Json::FinanceLiveDebit::"@ + run)[13] == 'L');
    assert(("Json::FinancePool::"@ + other)[13] == 'P');
    assert(("Json::FinancePoolReservation::"@ + other)[13] == 'P');
}

} // verus!
