//! A node: one endpoint with its negotiated protocol revision, its
//! prepared statement cache, and the request frames it issues. The
//! startup negotiation is a pure step function here; the socket work
//! around it stays outside the library.

use vstd::prelude::*;

use crate::def::{
    BatchType, Consistency, CqlPreparedStat, CqlRequest, CqlRequestBody, CqlResponse,
    CqlResponseBody, CqlSocketAddr, CqlStringMap, CqlPair, CqlValue, OpcodeRequest, Query,
    RequestBodyV, RequestV,
};
use crate::error::{RCError, RCErrorType, RCResult};
use crate::serialize::{encode_request, request_encodable, spec_encode_request};
use crate::strutil::eq_str;

verus! {

/// The request frame of a plain query.
pub open spec fn spec_query_request(
    version: u8,
    stream: i16,
    q: Seq<char>,
    con: Consistency,
) -> RequestV {
    RequestV {
        version,
        flags: 0,
        stream,
        opcode: OpcodeRequest::OpcodeQuery,
        body: RequestBodyV::QueryReqV(q, con, 0),
    }
}

/// The outcome the startup negotiation reads from a server reply.
#[derive(Clone, Copy, Debug, PartialEq, Eq, Structural)]
pub enum StartupEvent {
    EventReady,
    EventAuthenticate,
    EventErrorReply,
    EventOther,
}

/// What the negotiation does next.
#[derive(Clone, Copy, Debug, PartialEq, Eq, Structural)]
pub enum NegotiationNext {
    Connected(u8),
    SendCredentials(u8),
    Retry(u8),
    Failed,
}

/// Classifies a startup reply by its body.
pub fn classify_startup_response(resp: &CqlResponse) -> (r: StartupEvent)
    ensures
        (resp.body is ResponseReady) == (r == StartupEvent::EventReady),
        (resp.body is ResponseAuth) == (r == StartupEvent::EventAuthenticate),
        (resp.body is ResponseError) == (r == StartupEvent::EventErrorReply),
{
    match &resp.body {
        CqlResponseBody::ResponseReady => StartupEvent::EventReady,
        CqlResponseBody::ResponseAuth(_) => StartupEvent::EventAuthenticate,
        CqlResponseBody::ResponseError(_, _) => StartupEvent::EventErrorReply,
        _ => StartupEvent::EventOther,
    }
}

/// One step of the startup negotiation: `Ready` connects at the current
/// revision; `Authenticate` asks for credentials when some were given and
/// fails otherwise; an error or unexpected reply retries one revision
/// lower until revision 1 has failed.
pub fn negotiate_step(version: u8, ev: StartupEvent, has_creds: bool) -> (r: NegotiationNext)
    requires
        1 <= version <= 3,
    ensures
        ev == StartupEvent::EventReady ==> r == NegotiationNext::Connected(version),
        ev == StartupEvent::EventAuthenticate && has_creds ==> r
            == NegotiationNext::SendCredentials(version),
        ev == StartupEvent::EventAuthenticate && !has_creds ==> r == NegotiationNext::Failed,
        (ev == StartupEvent::EventErrorReply || ev == StartupEvent::EventOther) && version > 1
            ==> r == NegotiationNext::Retry((version - 1) as u8),
        (ev == StartupEvent::EventErrorReply || ev == StartupEvent::EventOther) && version == 1
            ==> r == NegotiationNext::Failed,
{
    match ev {
        StartupEvent::EventReady => NegotiationNext::Connected(version),
        StartupEvent::EventAuthenticate => if has_creds {
            NegotiationNext::SendCredentials(version)
        } else {
            NegotiationNext::Failed
        },
        _ => if version > 1 {
            NegotiationNext::Retry(version - 1)
        } else {
            NegotiationNext::Failed
        },
    }
}

/// Looks a logical id up in a prepared statement cache: the most recent
/// entry for the id wins, so re-preparing a statement under an existing
/// id replaces what the id resolves to.
pub open spec fn spec_find_prepared(
    s: Seq<(String, CqlPreparedStat)>,
    key: Seq<char>,
) -> Option<int>
    decreases s.len(),
{
    if s.len() == 0 {
        None
    } else if s.last().0@ == key {
        Some(s.len() - 1)
    } else {
        spec_find_prepared(s.drop_last(), key)
    }
}

/// A found index lies in range and carries the looked-up id.
pub proof fn lemma_find_prepared_in_range(s: Seq<(String, CqlPreparedStat)>, key: Seq<char>)
    ensures
        (match spec_find_prepared(s, key) {
            Some(i) => 0 <= i < s.len() && s[i].0@ == key,
            None => true,
        }),
    decreases s.len(),
{
    if s.len() > 0 && s.last().0@ != key {
        lemma_find_prepared_in_range(s.drop_last(), key);
        match spec_find_prepared(s.drop_last(), key) {
            Some(i) => {
                assert(s.drop_last()[i] == s[i]);
            },
            None => {},
        }
    }
}

/// The statement a logical id resolves to in a cache, if any.
pub open spec fn spec_resolve_prepared(
    s: Seq<(String, CqlPreparedStat)>,
    key: Seq<char>,
) -> Option<CqlPreparedStat> {
    match spec_find_prepared(s, key) {
        Some(i) => Some(s[i].1),
        None => None,
    }
}

/// One endpoint: its address, the negotiated revision, and the cache of
/// prepared statements keyed by the caller's logical id.
pub struct Node {
    pub addr: CqlSocketAddr,
    pub version: u8,
    pub prepared: Vec<(String, CqlPreparedStat)>,
}

impl Node {
    /// A fresh node for an endpoint, at the highest supported revision.
    pub fn new(addr: CqlSocketAddr) -> (r: Node)
        ensures
            r.addr == addr,
            r.version == 3,
            r.prepared@.len() == 0,
    {
        Node { addr, version: 3, prepared: Vec::new() }
    }

    /// The endpoint this node stands for.
    pub fn get_sock_addr(&self) -> (r: CqlSocketAddr)
        ensures
            r == self.addr,
    {
        self.addr
    }

    /// Records the revision the startup negotiation settled on.
    pub fn set_version(&mut self, version: u8)
        ensures
            final(self).version == version,
            final(self).addr == old(self).addr,
            final(self).prepared@ == old(self).prepared@,
    {
        self.version = version;
    }

    /// Caches a prepared statement under a caller-supplied logical id;
    /// the id now resolves to this statement, replacing what an earlier
    /// preparation under the same id resolved to, and every other id
    /// resolves as before.
    pub fn insert_prepared(&mut self, ps_id: String, stat: CqlPreparedStat)
        ensures
            final(self).prepared@ == old(self).prepared@.push((ps_id, stat)),
            spec_resolve_prepared(final(self).prepared@, ps_id@) == Some(stat),
            forall|k: Seq<char>|
                k != ps_id@ ==> #[trigger] spec_resolve_prepared(final(self).prepared@, k)
                    == spec_resolve_prepared(old(self).prepared@, k),
            final(self).addr == old(self).addr,
            final(self).version == old(self).version,
    {
        self.prepared.push((ps_id, stat));
        proof {
            let after = self.prepared@;
            assert(after.last() == (ps_id, stat));
            assert forall|k: Seq<char>|
                k != ps_id@ implies #[trigger] spec_resolve_prepared(after, k)
                == spec_resolve_prepared(old(self).prepared@, k) by {
                assert(after.drop_last() =~= old(self).prepared@);
                assert(spec_find_prepared(after, k) == spec_find_prepared(
                    old(self).prepared@,
                    k,
                ));
                lemma_find_prepared_in_range(old(self).prepared@, k);
                match spec_find_prepared(old(self).prepared@, k) {
                    Some(i) => {
                        assert(after[i] == old(self).prepared@[i]);
                    },
                    None => {},
                }
            }
        }
    }

    /// Resolves a logical id to its cached prepared statement, the most
    /// recently inserted entry for the id; an unknown id fails with a
    /// generic error.
    pub fn get_prepared_statement(&self, ps_id: &str) -> (r: RCResult<&CqlPreparedStat>)
        ensures
            (match spec_find_prepared(self.prepared@, ps_id@) {
                Some(i) => r matches Ok(p) && *p == self.prepared@[i].1 && Some(*p)
                    == spec_resolve_prepared(self.prepared@, ps_id@),
                None => r matches Err(e) && e.kind == RCErrorType::GenericError,
            }),
    {
        let ghost s = self.prepared@;
        let n = self.prepared.len();
        let mut j: usize = n;
        proof {
            assert(s.take(n as int) =~= s);
        }
        while j > 0
            invariant
                s == self.prepared@,
                n == s.len(),
                j <= n,
                spec_find_prepared(s, ps_id@) == spec_find_prepared(s.take(j as int), ps_id@),
            decreases j,
        {
            j -= 1;
            proof {
                assert(s.take(j + 1).last() == s[j as int]);
                assert(s.take(j + 1).drop_last() =~= s.take(j as int));
            }
            if eq_str(self.prepared[j].0.as_str(), ps_id) {
                proof {
                    assert(spec_find_prepared(s.take(j + 1), ps_id@) == Some(j as int));
                }
                return Ok(&self.prepared[j].1);
            }
        }
        proof {
            assert(s.take(0) =~= Seq::<(String, CqlPreparedStat)>::empty());
        }
        Err(RCError::new("unknown prepared statement", RCErrorType::GenericError))
    }

    /// Builds the frame of a plain query at this node's revision.
    pub fn exec_query(&self, query_str: &str, con: Consistency, stream: i16) -> (r: RCResult<
        Vec<u8>,
    >)
        ensures
            request_encodable(spec_query_request(self.version, stream, query_str@, con)) ==> (r
                matches Ok(out) && out@ == spec_encode_request(
                spec_query_request(self.version, stream, query_str@, con),
            )),
            !request_encodable(spec_query_request(self.version, stream, query_str@, con)) ==> (r
                matches Err(e) && e.kind == RCErrorType::SerializeError),
    {
        let q = CqlRequest {
            version: self.version,
            flags: 0,
            stream,
            opcode: OpcodeRequest::OpcodeQuery,
            body: CqlRequestBody::RequestQuery(query_str.to_owned(), con, 0),
        };
        encode_request(&q)
    }

    /// Builds the frame that prepares a statement.
    pub fn prepared_statement(&self, query_str: &str, stream: i16) -> (r: RCResult<Vec<u8>>)
        ensures
            ({
                let m = RequestV {
                    version: self.version,
                    flags: 0,
                    stream,
                    opcode: OpcodeRequest::OpcodePrepare,
                    body: RequestBodyV::PrepareV(query_str@),
                };
                (request_encodable(m) ==> (r matches Ok(out) && out@ == spec_encode_request(m)))
                    && (!request_encodable(m) ==> (r matches Err(e) && e.kind
                    == RCErrorType::SerializeError))
            }),
    {
        let q = CqlRequest {
            version: self.version,
            flags: 0,
            stream,
            opcode: OpcodeRequest::OpcodePrepare,
            body: CqlRequestBody::RequestPrepare(query_str.to_owned()),
        };
        encode_request(&q)
    }

    /// Builds the frame that executes a prepared statement with bound
    /// values.
    pub fn exec_prepared(
        &self,
        preps: Vec<u8>,
        params: Vec<CqlValue>,
        con: Consistency,
        stream: i16,
    ) -> (r: RCResult<Vec<u8>>)
        ensures
            ({
                let m = RequestV {
                    version: self.version,
                    flags: 0,
                    stream,
                    opcode: OpcodeRequest::OpcodeExecute,
                    body: RequestBodyV::ExecV(
                        preps@,
                        crate::def::values_model(params@),
                        con,
                        1,
                    ),
                };
                (request_encodable(m) ==> (r matches Ok(out) && out@ == spec_encode_request(m)))
                    && (!request_encodable(m) ==> (r matches Err(e) && e.kind
                    == RCErrorType::SerializeError))
            }),
    {
        let q = CqlRequest {
            version: self.version,
            flags: 0,
            stream,
            opcode: OpcodeRequest::OpcodeExecute,
            body: CqlRequestBody::RequestExec(preps, params, con, 1),
        };
        encode_request(&q)
    }

    /// Builds the frame of a batch.
    pub fn exec_batch(
        &self,
        q_type: BatchType,
        q_vec: Vec<Query>,
        con: Consistency,
        stream: i16,
    ) -> (r: RCResult<Vec<u8>>)
        ensures
            ({
                let m = RequestV {
                    version: self.version,
                    flags: 0,
                    stream,
                    opcode: OpcodeRequest::OpcodeBatch,
                    body: RequestBodyV::BatchV(
                        crate::def::queries_model(q_vec@),
                        q_type,
                        con,
                        0,
                    ),
                };
                (request_encodable(m) ==> (r matches Ok(out) && out@ == spec_encode_request(m)))
                    && (!request_encodable(m) ==> (r matches Err(e) && e.kind
                    == RCErrorType::SerializeError))
            }),
    {
        let q = CqlRequest {
            version: self.version,
            flags: 0,
            stream,
            opcode: OpcodeRequest::OpcodeBatch,
            body: CqlRequestBody::RequestBatch(q_vec, q_type, con, 0),
        };
        encode_request(&q)
    }

    /// Builds the frame that registers for topology and status events.
    pub fn send_register(&self, stream: i16) -> (r: RCResult<Vec<u8>>)
        ensures
            ({
                let m = RequestV {
                    version: self.version,
                    flags: 0,
                    stream,
                    opcode: OpcodeRequest::OpcodeRegister,
                    body: RequestBodyV::RegisterV(
                        seq!["TOPOLOGY_CHANGE"@, "STATUS_CHANGE"@],
                    ),
                };
                (request_encodable(m) ==> (r matches Ok(out) && out@ == spec_encode_request(m)))
                    && (!request_encodable(m) ==> (r matches Err(e) && e.kind
                    == RCErrorType::SerializeError))
            }),
    {
        let mut kinds: Vec<String> = Vec::new();
        kinds.push("TOPOLOGY_CHANGE".to_owned());
        kinds.push("STATUS_CHANGE".to_owned());
        proof {
            assert(crate::def::str_list_model(kinds@) =~= seq![
                "TOPOLOGY_CHANGE"@,
                "STATUS_CHANGE"@,
            ]);
        }
        let q = CqlRequest {
            version: self.version,
            flags: 0,
            stream,
            opcode: OpcodeRequest::OpcodeRegister,
            body: CqlRequestBody::RequestRegister(kinds),
        };
        encode_request(&q)
    }

    /// Builds the frame of the peers discovery query.
    pub fn get_peers(&self, con: Consistency, stream: i16) -> (r: RCResult<Vec<u8>>)
        ensures
            request_encodable(
                spec_query_request(self.version, stream, "SELECT peer FROM system.peers"@, con),
            ) ==> (r matches Ok(out) && out@ == spec_encode_request(
                spec_query_request(self.version, stream, "SELECT peer FROM system.peers"@, con),
            )),
            !request_encodable(
                spec_query_request(self.version, stream, "SELECT peer FROM system.peers"@, con),
            ) ==> (r matches Err(e) && e.kind == RCErrorType::SerializeError),
    {
        self.exec_query("SELECT peer FROM system.peers", con, stream)
    }

    /// Builds the startup frame announcing the CQL version.
    pub fn startup_frame(&self, version: u8, stream: i16) -> (r: RCResult<Vec<u8>>)
        ensures
            ({
                let m = RequestV {
                    version,
                    flags: 0,
                    stream,
                    opcode: OpcodeRequest::OpcodeStartup,
                    body: RequestBodyV::StartupV(seq![("CQL_VERSION"@, "3.0.0"@)]),
                };
                (request_encodable(m) ==> (r matches Ok(out) && out@ == spec_encode_request(m)))
                    && (!request_encodable(m) ==> (r matches Err(e) && e.kind
                    == RCErrorType::SerializeError))
            }),
    {
        let mut pairs: Vec<CqlPair> = Vec::new();
        pairs.push(CqlPair { key: "CQL_VERSION".to_owned(), value: "3.0.0".to_owned() });
        let m = CqlStringMap { pairs };
        proof {
            assert(crate::def::string_map_model(m) =~= seq![("CQL_VERSION"@, "3.0.0"@)]);
        }
        let q = CqlRequest {
            version,
            flags: 0,
            stream,
            opcode: OpcodeRequest::OpcodeStartup,
            body: CqlRequestBody::RequestStartup(m),
        };
        encode_request(&q)
    }

    /// Builds the credentials frame of the startup exchange.
    pub fn credentials_frame(&self, version: u8, stream: i16, creds: Vec<String>) -> (r: RCResult<
        Vec<u8>,
    >)
        ensures
            ({
                let m = RequestV {
                    version,
                    flags: 0,
                    stream,
                    opcode: OpcodeRequest::OpcodeCred,
                    body: RequestBodyV::CredV(crate::def::str_list_model(creds@)),
                };
                (request_encodable(m) ==> (r matches Ok(out) && out@ == spec_encode_request(m)))
                    && (!request_encodable(m) ==> (r matches Err(e) && e.kind
                    == RCErrorType::SerializeError))
            }),
    {
        let q = CqlRequest {
            version,
            flags: 0,
            stream,
            opcode: OpcodeRequest::OpcodeCred,
            body: CqlRequestBody::RequestCred(creds),
        };
        encode_request(&q)
    }
}

} // verus!
