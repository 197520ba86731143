use vstd::prelude::*;

use crate::token::{bytes_eq, clone_bytes, ErrModel};

verus! {

// ---------------------------------------------------------------------------
// The fetch collaborator's interface
// ---------------------------------------------------------------------------

/// What fetching one URL yields, at the model level: either the transport
/// failed outright, or a response with a status and a body came back.
#[verifier::ext_equal]
pub enum FetchOutcome {
    Transport,
    Reply { status: u16, body: Seq<u8> },
}

/// A fragment response: its status code and its body bytes.
#[derive(Debug, Clone, PartialEq, Eq)]
pub struct FetchResponse {
    pub status: u16,
    pub body: Vec<u8>,
}

/// A transport-layer failure of one fragment request.
#[derive(Debug, Clone, PartialEq, Eq)]
pub struct TransportFault {
    pub message: String,
}

/// How an executable fetch result corresponds to the model's outcome.
pub open spec fn matches_outcome(o: FetchOutcome, r: Result<FetchResponse, TransportFault>) -> bool {
    match o {
        FetchOutcome::Transport => r is Err,
        FetchOutcome::Reply { status, body } => r matches Ok(resp) && resp.status == status
            && resp.body@ == body,
    }
}

/// The capability the engine consumes to fetch one fragment. The host
/// implements it over its transport; `TableFetcher` implements it in memory.
/// Its model is the outcome each URL would yield: the engine's contracts are
/// stated against that model.
pub trait FragmentFetcher {
    /// What fetching `url` yields. The default — every fetch fails at the
    /// transport — is the one sound model for a fetcher that promises
    /// nothing; a fetcher whose replies the contracts should see, such as
    /// `TableFetcher`, gives its own.
    open spec fn outcome(&self, url: Seq<u8>) -> FetchOutcome {
        FetchOutcome::Transport
    }

    /// Fetches the fragment at `url`.
    fn fetch(&self, url: &Vec<u8>) -> (r: Result<FetchResponse, TransportFault>)
        ensures
            matches_outcome(self.outcome(url@), r),
    ;
}

/// Whether a response status counts as success.
pub open spec fn is_success_status(s: u16) -> bool {
    200 <= s < 300
}

/// What one fetch attempt contributes: the body on success, the error that
/// the engine reports otherwise.
pub open spec fn attempt_model(o: FetchOutcome) -> Result<Seq<u8>, ErrModel> {
    match o {
        FetchOutcome::Transport => Err(ErrModel::Request),
        FetchOutcome::Reply { status, body } => if is_success_status(status) {
            Ok(body)
        } else {
            Err(ErrModel::Status(status))
        },
    }
}

// ---------------------------------------------------------------------------
// An in-memory fetcher
// ---------------------------------------------------------------------------

/// One canned reply: requests for `url` get `status` and `body`.
#[derive(Debug, Clone, PartialEq, Eq)]
pub struct TableEntry {
    pub url: Vec<u8>,
    pub status: u16,
    pub body: Vec<u8>,
}

#[verifier::ext_equal]
pub struct TableEntryModel {
    pub url: Seq<u8>,
    pub status: u16,
    pub body: Seq<u8>,
}

impl View for TableEntry {
    type V = TableEntryModel;

    open spec fn view(&self) -> TableEntryModel {
        TableEntryModel { url: self.url@, status: self.status, body: self.body@ }
    }
}

/// The outcome the table yields for `url`: the first matching entry's reply,
/// or a transport failure when no entry matches.
pub open spec fn table_lookup(entries: Seq<TableEntryModel>, url: Seq<u8>) -> FetchOutcome
    decreases entries.len(),
{
    if entries.len() == 0 {
        FetchOutcome::Transport
    } else if entries[0].url == url {
        FetchOutcome::Reply { status: entries[0].status, body: entries[0].body }
    } else {
        table_lookup(entries.drop_first(), url)
    }
}

/// An in-memory fetch collaborator serving canned replies; URLs without an
/// entry fail at the transport level.
#[derive(Debug, Clone, PartialEq, Eq)]
pub struct TableFetcher {
    pub entries: Vec<TableEntry>,
}

impl TableFetcher {
    pub fn new(entries: Vec<TableEntry>) -> (f: TableFetcher)
        ensures
            f.entries == entries,
    {
        TableFetcher { entries }
    }
}

impl FragmentFetcher for TableFetcher {
    open spec fn outcome(&self, url: Seq<u8>) -> FetchOutcome {
        table_lookup(self.entries@.map_values(|e: TableEntry| e@), url)
    }

    fn fetch(&self, url: &Vec<u8>) -> (r: Result<FetchResponse, TransportFault>) {
        let ghost em = self.entries@.map_values(|e: TableEntry| e@);
        proof {
            assert(em.skip(0) =~= em);
        }
        let mut i: usize = 0;
        while i < self.entries.len()
            invariant
                i <= self.entries.len(),
                em == self.entries@.map_values(|e: TableEntry| e@),
                em.len() == self.entries@.len(),
                table_lookup(em, url@) == table_lookup(em.skip(i as int), url@),
            decreases self.entries.len() - i,
        {
            proof {
                assert(em[i as int] == self.entries@[i as int]@);
                assert(em.skip(i as int)[0] == em[i as int]);
            }
            if bytes_eq(&self.entries[i].url, url) {
                return Ok(FetchResponse {
                    status: self.entries[i].status,
                    body: clone_bytes(&self.entries[i].body),
                });
            }
            proof {
                assert(em.skip(i as int).drop_first() =~= em.skip(i as int + 1));
            }
            i += 1;
        }
        proof {
            assert(em.skip(i as int).len() == 0);
        }
        Err(TransportFault { message: String::new() })
    }
}

} // verus!
