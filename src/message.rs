//! Directory-protocol messages as the proxy's logic sees them.
//!
//! Parts that the proxy only carries through (bind credentials, controls, the
//! request as received) stay values of ldap3_proto; what the logic reads is
//! held as plain values.
use ldap3_proto::control::LdapControl;
use ldap3_proto::proto::{LdapBindCred, LdapFilter};
use vstd::prelude::*;

verus! {

/// ldap3_proto's response and request controls, carried through unread.
#[verifier::external_type_specification]
#[verifier::external_body]
pub struct ExLdapControl(LdapControl);

/// ldap3_proto's bind credentials, forwarded to the backend unread.
#[verifier::external_type_specification]
#[verifier::external_body]
pub struct ExLdapBindCred(LdapBindCred);

/// ldap3_proto's search filter, forwarded to the backend unread.
#[verifier::external_type_specification]
#[verifier::external_body]
pub struct ExLdapFilter(LdapFilter);

/// Relies on the derived `Clone` of ldap3_proto's `LdapControl`: the copy is
/// equal to the value copied.
pub assume_specification[ <LdapControl as Clone>::clone ](c: &LdapControl) -> (r: LdapControl)
    ensures
        r == *c,
;

/// Result code of a successful operation.
pub const RESULT_SUCCESS: i64 = 0;

/// Result code of a failed operation, reported without further detail.
pub const RESULT_OPERATIONS_ERROR: i64 = 1;

/// The terminating status of an operation.
pub struct LdapResult {
    pub code: i64,
    pub matcheddn: String,
    pub message: String,
    pub referral: Vec<String>,
}

pub struct BindRequest {
    pub dn: String,
    pub cred: LdapBindCred,
}

pub struct BindResponse {
    pub res: LdapResult,
    pub saslcreds: Option<Vec<u8>>,
}

#[derive(Clone, Copy, PartialEq, Eq, Structural, Debug)]
pub enum SearchScope {
    Base,
    OneLevel,
    Subtree,
    Children,
}

pub struct SearchRequest {
    pub base: String,
    pub scope: SearchScope,
    pub aliases: i64,
    pub sizelimit: i32,
    pub timelimit: i32,
    pub typesonly: bool,
    pub filter: LdapFilter,
    /// The filter in its textual form, as the cache key holds it.
    pub filter_text: String,
    pub attrs: Vec<String>,
}

pub struct PartialAttribute {
    pub atype: String,
    pub vals: Vec<Vec<u8>>,
}

pub struct SearchEntry {
    pub dn: String,
    pub attributes: Vec<PartialAttribute>,
}

pub enum LdapOp {
    BindRequest(BindRequest),
    BindResponse(BindResponse),
    UnbindRequest,
    SearchRequest(SearchRequest),
    SearchResultEntry(SearchEntry),
    SearchResultDone(LdapResult),
    /// Any operation outside bind, unbind and search.
    Unsupported,
}

pub struct LdapMsg {
    pub msgid: i32,
    pub op: LdapOp,
    pub ctrl: Vec<LdapControl>,
}

pub open spec fn attribute_equal(a: PartialAttribute, b: PartialAttribute) -> bool {
    &&& a.atype@ == b.atype@
    &&& a.vals@.len() == b.vals@.len()
    &&& forall|i: int| 0 <= i < a.vals@.len() ==> #[trigger] a.vals@[i]@ == b.vals@[i]@
}

/// Two entries carry the same name and the same attributes, values in order.
pub open spec fn entry_equal(a: SearchEntry, b: SearchEntry) -> bool {
    &&& a.dn@ == b.dn@
    &&& a.attributes@.len() == b.attributes@.len()
    &&& forall|i: int|
        0 <= i < a.attributes@.len() ==> attribute_equal(
            #[trigger] a.attributes@[i],
            b.attributes@[i],
        )
}

pub open spec fn entries_equal(a: Seq<SearchEntry>, b: Seq<SearchEntry>) -> bool {
    &&& a.len() == b.len()
    &&& forall|i: int| 0 <= i < a.len() ==> entry_equal(#[trigger] a[i], b[i])
}

pub open spec fn result_equal(a: LdapResult, b: LdapResult) -> bool {
    &&& a.code == b.code
    &&& a.matcheddn@ == b.matcheddn@
    &&& a.message@ == b.message@
    &&& a.referral@.len() == b.referral@.len()
    &&& forall|i: int| 0 <= i < a.referral@.len() ==> #[trigger] a.referral@[i]@ == b.referral@[i]@
}

pub fn copy_bytes(v: &Vec<u8>) -> (r: Vec<u8>)
    ensures
        r@ == v@,
{
    let mut r: Vec<u8> = Vec::new();
    let mut i: usize = 0;
    while i < v.len()
        invariant
            i <= v@.len(),
            r@ == v@.subrange(0, i as int),
        decreases v@.len() - i,
    {
        r.push(v[i]);
        i = i + 1;
    }
    assert(r@ =~= v@);
    r
}

pub fn copy_strings(v: &Vec<String>) -> (r: Vec<String>)
    ensures
        r@.len() == v@.len(),
        forall|i: int| 0 <= i < v@.len() ==> #[trigger] r@[i]@ == v@[i]@,
{
    let mut r: Vec<String> = Vec::new();
    let mut i: usize = 0;
    while i < v.len()
        invariant
            i <= v@.len(),
            r@.len() == i,
            forall|j: int| 0 <= j < i ==> #[trigger] r@[j]@ == v@[j]@,
        decreases v@.len() - i,
    {
        r.push(v[i].clone());
        i = i + 1;
    }
    r
}

pub fn copy_controls(v: &Vec<LdapControl>) -> (r: Vec<LdapControl>)
    ensures
        r@ == v@,
{
    let mut r: Vec<LdapControl> = Vec::new();
    let mut i: usize = 0;
    while i < v.len()
        invariant
            i <= v@.len(),
            r@ == v@.subrange(0, i as int),
        decreases v@.len() - i,
    {
        r.push(v[i].clone());
        i = i + 1;
    }
    assert(r@ =~= v@);
    r
}

impl PartialAttribute {
    pub fn duplicate(&self) -> (r: PartialAttribute)
        ensures
            attribute_equal(r, *self),
    {
        let mut vals: Vec<Vec<u8>> = Vec::new();
        let mut i: usize = 0;
        while i < self.vals.len()
            invariant
                i <= self.vals@.len(),
                vals@.len() == i,
                forall|j: int| 0 <= j < i ==> #[trigger] vals@[j]@ == self.vals@[j]@,
            decreases self.vals@.len() - i,
        {
            vals.push(copy_bytes(&self.vals[i]));
            i = i + 1;
        }
        PartialAttribute { atype: self.atype.clone(), vals }
    }
}

impl SearchEntry {
    pub fn duplicate(&self) -> (r: SearchEntry)
        ensures
            entry_equal(r, *self),
    {
        let mut attributes: Vec<PartialAttribute> = Vec::new();
        let mut i: usize = 0;
        while i < self.attributes.len()
            invariant
                i <= self.attributes@.len(),
                attributes@.len() == i,
                forall|j: int|
                    0 <= j < i ==> attribute_equal(#[trigger] attributes@[j], self.attributes@[j]),
            decreases self.attributes@.len() - i,
        {
            attributes.push(self.attributes[i].duplicate());
            i = i + 1;
        }
        SearchEntry { dn: self.dn.clone(), attributes }
    }
}

impl LdapResult {
    pub fn duplicate(&self) -> (r: LdapResult)
        ensures
            result_equal(r, *self),
    {
        LdapResult {
            code: self.code,
            matcheddn: self.matcheddn.clone(),
            message: self.message.clone(),
            referral: copy_strings(&self.referral),
        }
    }
}

/// The reply to a bind that the proxy refuses: an operations error with the
/// given diagnostic message and nothing else.
pub fn bind_operror(msgid: i32, msg: &str) -> (r: LdapMsg)
    ensures
        r.msgid == msgid,
        r.ctrl@.len() == 0,
        r.op matches LdapOp::BindResponse(b) && b.res.code == RESULT_OPERATIONS_ERROR
            && b.res.matcheddn@.len() == 0 && b.res.message@ == msg@ && b.res.referral@.len()
            == 0 && b.saslcreds is None,
{
    LdapMsg {
        msgid: msgid,
        op: LdapOp::BindResponse(
            BindResponse {
                res: LdapResult {
                    code: RESULT_OPERATIONS_ERROR,
                    matcheddn: String::new(),
                    message: msg.to_owned(),
                    referral: Vec::new(),
                },
                saslcreds: None,
            },
        ),
        ctrl: Vec::new(),
    }
}

} // verus!
