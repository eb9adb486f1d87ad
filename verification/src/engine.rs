//! The navigation state machine.
//!
//! The engine receives user intents and link events, decides the next view,
//! and drives cache population, eviction and the create/update/delete cycle.
//! It performs no I/O itself: an intent that needs the storage backend puts
//! the engine into a pending state and hands the caller the one call to
//! perform (`on_select`, `start_save_create`, `start_save_edit`,
//! `start_delete`); the caller blocks on that single call and commits its
//! outcome (`on_fetch_done`, `on_create_done`, `on_update_done`,
//! `on_delete_done`).  At most one call is outstanding at a time, and the
//! gate holds its address for the whole round trip.

use crate::address::AddrV;
use crate::address::PageAddress;
use crate::cache::cache_wf;
use crate::cache::lookup;
use crate::cache::put_entry;
use crate::cache::remove_entry;
use crate::cache::PageCache;
use crate::cache::PageRecord;
use crate::cache::RecV;
use crate::errors::storage_to_wiki;
use crate::errors::storage_to_wiki_spec;
use crate::errors::MissingField;
use crate::errors::StorageError;
use crate::errors::WikiError;
use crate::gate::SyncGate;
use crate::router::first_resolved;
use crate::router::route_links;
use crate::title::extract_title;
use crate::title::title_of;
use vstd::prelude::*;

verus! {

/// The view the user is in.  Exactly one is active; at most one draft exists.
pub enum NavState {
    /// The page index.
    Listing,
    /// One page.  Content is present after a cache hit or a committed fetch;
    /// a failed fetch attaches its error instead.
    Viewing { address: PageAddress, content: Option<String>, error: Option<StorageError> },
    /// Drafting a new page.
    Creating { draft: String },
    /// Editing an existing page.
    Editing { address: PageAddress, draft: String },
}

/// The mathematical value of a navigation state.
pub enum StateV {
    Listing,
    Viewing { address: AddrV, content: Option<Seq<char>>, error: Option<StorageError> },
    Creating { draft: Seq<char> },
    Editing { address: AddrV, draft: Seq<char> },
}

impl View for NavState {
    type V = StateV;

    open spec fn view(&self) -> StateV {
        match self {
            NavState::Listing => StateV::Listing,
            NavState::Viewing { address, content, error } => StateV::Viewing {
                address: address@,
                content: match content {
                    Some(c) => Some(c@),
                    None => None,
                },
                error: *error,
            },
            NavState::Creating { draft } => StateV::Creating { draft: draft@ },
            NavState::Editing { address, draft } => StateV::Editing {
                address: address@,
                draft: draft@,
            },
        }
    }
}

/// The one bridge call the caller has been asked to perform.
pub enum PendingV {
    Fetch { address: AddrV },
    Create { content: Seq<char> },
    Update { address: AddrV, content: Seq<char> },
    Delete { address: AddrV },
}

/// The authenticated identity, where a session exists.
pub open spec fn opt_view(o: Option<String>) -> Option<Seq<char>> {
    match o {
        Some(s) => Some(s@),
        None => None,
    }
}

/// The engine: view state, page cache, mutation gate, session identity, and
/// bookkeeping for the one outstanding bridge call.
pub struct Engine {
    pub state: NavState,
    pub cache: PageCache,
    pub gate: SyncGate,
    pub session: Option<String>,
    pub needs_refresh: bool,
    pub last_error: Option<WikiError>,
    pub pending: Ghost<Option<PendingV>>,
}

impl Engine {
    /// The engine's internal consistency: the cache has no duplicates, the
    /// gate is sound and (the interaction loop being single-threaded) has no
    /// waiters, SyncGate holds exactly the pending call's address, the
    /// pending call agrees with the view state, and drafts exist only under
    /// a session.
    pub open spec fn wf(&self) -> bool {
        &&& cache_wf(self.cache@)
        &&& self.gate.wf()
        &&& self.gate@.1 == Seq::<(u64, AddrV)>::empty()
        &&& ((self.state@ is Creating || self.state@ is Editing) ==> self.session is Some)
        &&& match self.pending@ {
            None => self.gate@.0 == Seq::<AddrV>::empty(),
            Some(PendingV::Fetch { address }) => {
                &&& self.gate@.0 == seq![address]
                &&& (self.state@ matches StateV::Viewing { address: a, content, error } && a
                    == address && content is None && error is None)
            },
            Some(PendingV::Create { content }) => {
                &&& self.gate@.0 == Seq::<AddrV>::empty()
                &&& (self.state@ matches StateV::Creating { draft } && draft == content)
            },
            Some(PendingV::Update { address, content }) => {
                &&& self.gate@.0 == seq![address]
                &&& (self.state@ matches StateV::Editing { address: a, draft } && a == address
                    && draft == content)
            },
            Some(PendingV::Delete { address }) => {
                &&& self.gate@.0 == seq![address]
                &&& (self.state@ matches StateV::Editing { address: a, draft: _ } && a == address)
            },
        }
    }

    /// A fresh engine: listing, empty cache, free gate, no call outstanding.
    pub fn new(session: Option<String>) -> (r: Self)
        ensures
            r.wf(),
            r.state@ is Listing,
            r.cache@ == Seq::<(AddrV, RecV)>::empty(),
            r.pending@ is None,
            opt_view(r.session) == opt_view(session),
            r.needs_refresh == false,
            r.last_error is None,
    {
        Engine {
            state: NavState::Listing,
            cache: PageCache::new(),
            gate: SyncGate::new(),
            session,
            needs_refresh: false,
            last_error: None,
            pending: Ghost(None),
        }
    }

    /// Selecting a page from the index or following a resolved link.  A
    /// cache hit serves the page at once; a miss asks the caller to perform
    /// exactly one fetch of the returned address.
    pub fn on_select(&mut self, addr: PageAddress) -> (fetch: Option<PageAddress>)
        requires
            old(self).wf(),
            old(self).pending@ is None,
            old(self).state@ is Listing || old(self).state@ is Viewing,
        ensures
            final(self).wf(),
            final(self).cache@ == old(self).cache@,
            opt_view(final(self).session) == opt_view(old(self).session),
            final(self).needs_refresh == old(self).needs_refresh,
            final(self).last_error == old(self).last_error,
            match lookup(old(self).cache@, addr@) {
                Some(rec) => {
                    &&& fetch is None
                    &&& final(self).pending@ is None
                    &&& final(self).state@ == (StateV::Viewing {
                        address: addr@,
                        content: Some(rec.1),
                        error: None,
                    })
                },
                None => {
                    &&& (fetch matches Some(f) && f@ == addr@)
                    &&& final(self).pending@ == Some(PendingV::Fetch { address: addr@ })
                    &&& final(self).state@ == (StateV::Viewing {
                        address: addr@,
                        content: None,
                        error: None,
                    })
                },
            },
    {
        let cached: Option<PageRecord> = match self.cache.get(&addr) {
            Some(r) => Some(r.clone()),
            None => None,
        };
        match cached {
            Some(rec) => {
                self.state = NavState::Viewing {
                    address: addr,
                    content: Some(rec.content),
                    error: None,
                };
                self.pending = Ghost(None);
                None
            },
            None => {
                let ok = self.gate.try_acquire(&addr);
                proof {
                    assert(ok);
                    assert(self.gate@.0 =~= seq![addr@]);
                }
                let f = addr.clone();
                self.pending = Ghost(Some(PendingV::Fetch { address: addr@ }));
                self.state = NavState::Viewing { address: addr, content: None, error: None };
                Some(f)
            },
        }
    }

    /// Commits the outcome of the fetch issued by `on_select`: success
    /// populates the cache and shows the content, failure attaches the error
    /// and leaves the cache alone.
    pub fn on_fetch_done(&mut self, result: Result<String, StorageError>)
        requires
            old(self).wf(),
            old(self).pending@ matches Some(PendingV::Fetch { .. }),
        ensures
            final(self).wf(),
            final(self).pending@ is None,
            opt_view(final(self).session) == opt_view(old(self).session),
            final(self).needs_refresh == old(self).needs_refresh,
            match (old(self).pending@, result) {
                (Some(PendingV::Fetch { address }), Ok(content)) => {
                    &&& final(self).cache@ == put_entry(
                        old(self).cache@,
                        address,
                        (title_of(content@), content@),
                    )
                    &&& final(self).state@ == (StateV::Viewing {
                        address,
                        content: Some(content@),
                        error: None,
                    })
                    &&& final(self).last_error is None
                },
                (Some(PendingV::Fetch { address }), Err(e)) => {
                    &&& final(self).cache@ == old(self).cache@
                    &&& final(self).state@ == (StateV::Viewing {
                        address,
                        content: None,
                        error: Some(e),
                    })
                    &&& final(self).last_error == Some(storage_to_wiki_spec(e))
                },
                _ => false,
            },
    {
        let addr = match &self.state {
            NavState::Viewing { address, .. } => address.clone(),
            _ => {
                proof {
                    assert(false);
                }
                PageAddress::new(String::new(), String::new())
            },
        };
        proof {
            assert(self.gate@.0[0] == addr@);
            assert(self.gate@.0.contains(addr@));
        }
        let _ = self.gate.release(&addr);
        proof {
            assert(self.gate@.0 =~= Seq::<AddrV>::empty());
        }
        self.pending = Ghost(None);
        match result {
            Ok(content) => {
                let title = extract_title(content.as_str());
                let rec = PageRecord { title, content };
                let shown = rec.content.clone();
                self.cache.put(addr.clone(), rec);
                self.state = NavState::Viewing {
                    address: addr,
                    content: Some(shown),
                    error: None,
                };
                self.last_error = None;
            },
            Err(e) => {
                self.state = NavState::Viewing { address: addr, content: None, error: Some(e) };
                self.last_error = Some(storage_to_wiki(e));
            },
        }
    }

    /// Opens a fresh draft from the index; only an authenticated session may
    /// create pages.
    pub fn on_new_page(&mut self) -> (ok: bool)
        requires
            old(self).wf(),
            old(self).pending@ is None,
            old(self).state@ is Listing,
        ensures
            final(self).wf(),
            final(self).pending@ is None,
            final(self).cache@ == old(self).cache@,
            opt_view(final(self).session) == opt_view(old(self).session),
            final(self).needs_refresh == old(self).needs_refresh,
            final(self).last_error == old(self).last_error,
            ok == (old(self).session is Some),
            ok ==> final(self).state@ == (StateV::Creating { draft: Seq::<char>::empty() }),
            !ok ==> final(self).state@ == old(self).state@,
    {
        match &self.session {
            Some(_) => {
                self.state = NavState::Creating { draft: String::new() };
                true
            },
            None => false,
        }
    }

    /// Back from a page to the index; transient view buffers are dropped.
    pub fn on_back(&mut self)
        requires
            old(self).wf(),
            old(self).pending@ is None,
            old(self).state@ is Viewing,
        ensures
            final(self).wf(),
            final(self).pending@ is None,
            final(self).state@ is Listing,
            final(self).cache@ == old(self).cache@,
            opt_view(final(self).session) == opt_view(old(self).session),
            final(self).needs_refresh == old(self).needs_refresh,
            final(self).last_error == old(self).last_error,
    {
        self.state = NavState::Listing;
    }

    /// Abandons the draft, back to the index.
    pub fn on_cancel(&mut self)
        requires
            old(self).wf(),
            old(self).pending@ is None,
            old(self).state@ is Creating || old(self).state@ is Editing,
        ensures
            final(self).wf(),
            final(self).pending@ is None,
            final(self).state@ is Listing,
            final(self).cache@ == old(self).cache@,
            opt_view(final(self).session) == opt_view(old(self).session),
            final(self).needs_refresh == old(self).needs_refresh,
            final(self).last_error == old(self).last_error,
    {
        self.state = NavState::Listing;
    }

    /// From viewing a page to editing it: allowed exactly when the session's
    /// identity owns the page, with the draft prefilled from the shown
    /// content.
    pub fn on_edit_requested(&mut self) -> (ok: bool)
        requires
            old(self).wf(),
            old(self).pending@ is None,
            old(self).state@ matches StateV::Viewing { content: Some(_), .. },
        ensures
            final(self).wf(),
            final(self).pending@ is None,
            final(self).cache@ == old(self).cache@,
            opt_view(final(self).session) == opt_view(old(self).session),
            final(self).needs_refresh == old(self).needs_refresh,
            final(self).last_error == old(self).last_error,
            match old(self).state@ {
                StateV::Viewing { address, content, .. } => {
                    &&& ok == (opt_view(old(self).session) == Some(address.0))
                    &&& (ok ==> (content matches Some(c) && final(self).state@ == (StateV::Editing {
                        address,
                        draft: c,
                    })))
                    &&& (!ok ==> final(self).state@ == old(self).state@)
                },
                _ => false,
            },
    {
        let owned = match (&self.session, &self.state) {
            (Some(sess), NavState::Viewing { address, .. }) => *sess == address.owner,
            _ => false,
        };
        if owned {
            let (address, draft) = match &self.state {
                NavState::Viewing { address, content: Some(c), .. } => (
                    address.clone(),
                    c.clone(),
                ),
                _ => {
                    proof {
                        assert(false);
                    }
                    (PageAddress::new(String::new(), String::new()), String::new())
                },
            };
            self.state = NavState::Editing { address, draft };
            true
        } else {
            false
        }
    }

    /// Asks to save `content`, the host shell's draft buffer, as a new page.
    /// Empty content is rejected on the spot — no bridge call is issued and
    /// the state is left unchanged.  Otherwise the draft is kept (it must
    /// survive a failure) and the caller must perform one `create` call with
    /// the returned content, committing it via `on_create_done`.
    pub fn start_save_create(&mut self, content: String) -> (r: Result<String, WikiError>)
        requires
            old(self).wf(),
            old(self).pending@ is None,
            old(self).state@ is Creating,
        ensures
            final(self).wf(),
            final(self).cache@ == old(self).cache@,
            opt_view(final(self).session) == opt_view(old(self).session),
            final(self).needs_refresh == old(self).needs_refresh,
            if content@.len() == 0 {
                &&& (r matches Err(e) && e == (WikiError::ValidationError {
                    missing: MissingField::Content,
                }))
                &&& final(self).pending@ is None
                &&& final(self).state@ == old(self).state@
                &&& final(self).last_error == Some(
                    WikiError::ValidationError { missing: MissingField::Content },
                )
            } else {
                &&& (r matches Ok(c) && c@ == content@)
                &&& final(self).pending@ == Some(PendingV::Create { content: content@ })
                &&& final(self).state@ == (StateV::Creating { draft: content@ })
                &&& final(self).last_error == old(self).last_error
            },
    {
        if content.as_str().is_empty() {
            let e = WikiError::ValidationError { missing: MissingField::Content };
            self.last_error = Some(e);
            return Err(e);
        }
        self.state = NavState::Creating { draft: content.clone() };
        self.pending = Ghost(Some(PendingV::Create { content: content@ }));
        Ok(content)
    }

    /// Commits the outcome of the `create` call: success caches the new page
    /// under the address the backend assigned (the index lists it at once)
    /// and returns to the index; failure keeps the draft and the state, and
    /// surfaces the error.
    pub fn on_create_done(&mut self, result: Result<PageAddress, StorageError>)
        requires
            old(self).wf(),
            old(self).pending@ matches Some(PendingV::Create { .. }),
        ensures
            final(self).wf(),
            final(self).pending@ is None,
            opt_view(final(self).session) == opt_view(old(self).session),
            final(self).needs_refresh == old(self).needs_refresh,
            match (old(self).pending@, result) {
                (Some(PendingV::Create { content }), Ok(addr)) => {
                    &&& final(self).cache@ == put_entry(
                        old(self).cache@,
                        addr@,
                        (title_of(content), content),
                    )
                    &&& final(self).state@ is Listing
                    &&& final(self).last_error is None
                },
                (Some(PendingV::Create { content }), Err(e)) => {
                    &&& final(self).cache@ == old(self).cache@
                    &&& final(self).state@ == (StateV::Creating { draft: content })
                    &&& final(self).state@ == old(self).state@
                    &&& final(self).last_error == Some(storage_to_wiki_spec(e))
                },
                _ => false,
            },
    {
        self.pending = Ghost(None);
        match result {
            Ok(addr) => {
                let draft = match &self.state {
                    NavState::Creating { draft } => draft.clone(),
                    _ => {
                        proof {
                            assert(false);
                        }
                        String::new()
                    },
                };
                let title = extract_title(draft.as_str());
                self.cache.put(addr, PageRecord { title, content: draft });
                self.state = NavState::Listing;
                self.last_error = None;
            },
            Err(e) => {
                self.last_error = Some(storage_to_wiki(e));
            },
        }
    }

    /// Asks to save `content`, the host shell's edit buffer, over the page
    /// being edited.  Empty content is rejected on the spot — no bridge call
    /// is issued and the state is left unchanged.  Otherwise SyncGate is
    /// taken for the page's address, the draft is kept (it must survive a
    /// failure), and the caller must perform one `update` call with the
    /// returned address and content, committing it via `on_update_done`.
    pub fn start_save_edit(&mut self, content: String) -> (r: Result<
        (PageAddress, String),
        WikiError,
    >)
        requires
            old(self).wf(),
            old(self).pending@ is None,
            old(self).state@ is Editing,
        ensures
            final(self).wf(),
            final(self).cache@ == old(self).cache@,
            opt_view(final(self).session) == opt_view(old(self).session),
            final(self).needs_refresh == old(self).needs_refresh,
            match old(self).state@ {
                StateV::Editing { address, draft: _ } => {
                    if content@.len() == 0 {
                        &&& (r matches Err(e) && e == (WikiError::ValidationError {
                            missing: MissingField::Content,
                        }))
                        &&& final(self).pending@ is None
                        &&& final(self).state@ == old(self).state@
                        &&& final(self).last_error == Some(
                            WikiError::ValidationError { missing: MissingField::Content },
                        )
                    } else {
                        &&& (r matches Ok(p) && p.0@ == address && p.1@ == content@)
                        &&& final(self).pending@ == Some(
                            PendingV::Update { address, content: content@ },
                        )
                        &&& final(self).state@ == (StateV::Editing { address, draft: content@ })
                        &&& final(self).last_error == old(self).last_error
                    }
                },
                _ => false,
            },
    {
        let address = match &self.state {
            NavState::Editing { address, .. } => address.clone(),
            _ => {
                proof {
                    assert(false);
                }
                PageAddress::new(String::new(), String::new())
            },
        };
        if content.as_str().is_empty() {
            let e = WikiError::ValidationError { missing: MissingField::Content };
            self.last_error = Some(e);
            return Err(e);
        }
        let ok = self.gate.try_acquire(&address);
        proof {
            assert(ok);
            assert(self.gate@.0 =~= seq![address@]);
        }
        self.state = NavState::Editing { address: address.clone(), draft: content.clone() };
        self.pending = Ghost(Some(PendingV::Update { address: address@, content: content@ }));
        Ok((address, content))
    }

    /// Commits the outcome of the `update` call: success stores the new
    /// content (the cache changes only after the backend acknowledged),
    /// returns to the index and marks it refresh-needed; failure keeps the
    /// editing state and the draft, leaves the cache alone, and surfaces the
    /// error.
    pub fn on_update_done(&mut self, result: Result<(), StorageError>)
        requires
            old(self).wf(),
            old(self).pending@ matches Some(PendingV::Update { .. }),
        ensures
            final(self).wf(),
            final(self).pending@ is None,
            opt_view(final(self).session) == opt_view(old(self).session),
            match (old(self).pending@, result) {
                (Some(PendingV::Update { address, content }), Ok(_)) => {
                    &&& final(self).cache@ == put_entry(
                        old(self).cache@,
                        address,
                        (title_of(content), content),
                    )
                    &&& final(self).state@ is Listing
                    &&& final(self).needs_refresh == true
                    &&& final(self).last_error is None
                },
                (Some(PendingV::Update { address, content }), Err(e)) => {
                    &&& final(self).cache@ == old(self).cache@
                    &&& final(self).state@ == old(self).state@
                    &&& final(self).needs_refresh == old(self).needs_refresh
                    &&& final(self).last_error == Some(storage_to_wiki_spec(e))
                },
                _ => false,
            },
    {
        let (address, draft) = match &self.state {
            NavState::Editing { address, draft } => (address.clone(), draft.clone()),
            _ => {
                proof {
                    assert(false);
                }
                (PageAddress::new(String::new(), String::new()), String::new())
            },
        };
        proof {
            assert(self.gate@.0[0] == address@);
            assert(self.gate@.0.contains(address@));
        }
        let _ = self.gate.release(&address);
        proof {
            assert(self.gate@.0 =~= Seq::<AddrV>::empty());
        }
        self.pending = Ghost(None);
        match result {
            Ok(_) => {
                let title = extract_title(draft.as_str());
                self.cache.put(address, PageRecord { title, content: draft });
                self.state = NavState::Listing;
                self.needs_refresh = true;
                self.last_error = None;
            },
            Err(e) => {
                self.last_error = Some(storage_to_wiki(e));
            },
        }
    }

    /// Asks to delete the page being edited.  SyncGate is taken for its
    /// address and the caller must perform one `delete` call for the
    /// returned address, committing it via `on_delete_done`.
    pub fn start_delete(&mut self) -> (r: PageAddress)
        requires
            old(self).wf(),
            old(self).pending@ is None,
            old(self).state@ is Editing,
        ensures
            final(self).wf(),
            final(self).state@ == old(self).state@,
            final(self).cache@ == old(self).cache@,
            opt_view(final(self).session) == opt_view(old(self).session),
            final(self).needs_refresh == old(self).needs_refresh,
            final(self).last_error == old(self).last_error,
            match old(self).state@ {
                StateV::Editing { address, .. } => {
                    &&& r@ == address
                    &&& final(self).pending@ == Some(PendingV::Delete { address })
                },
                _ => false,
            },
    {
        let address = match &self.state {
            NavState::Editing { address, .. } => address.clone(),
            _ => {
                proof {
                    assert(false);
                }
                PageAddress::new(String::new(), String::new())
            },
        };
        let ok = self.gate.try_acquire(&address);
        proof {
            assert(ok);
            assert(self.gate@.0 =~= seq![address@]);
        }
        self.pending = Ghost(Some(PendingV::Delete { address: address@ }));
        address
    }

    /// Commits the outcome of the `delete` call: success evicts the page —
    /// the index no longer lists it — returns to the index and marks it
    /// refresh-needed; failure keeps the editing state and the draft, never
    /// evicts, and surfaces the error.
    pub fn on_delete_done(&mut self, result: Result<(), StorageError>)
        requires
            old(self).wf(),
            old(self).pending@ matches Some(PendingV::Delete { .. }),
        ensures
            final(self).wf(),
            final(self).pending@ is None,
            opt_view(final(self).session) == opt_view(old(self).session),
            match (old(self).pending@, result) {
                (Some(PendingV::Delete { address }), Ok(_)) => {
                    &&& final(self).cache@ == remove_entry(old(self).cache@, address)
                    &&& final(self).state@ is Listing
                    &&& final(self).needs_refresh == true
                    &&& final(self).last_error is None
                },
                (Some(PendingV::Delete { address }), Err(e)) => {
                    &&& final(self).cache@ == old(self).cache@
                    &&& final(self).state@ == old(self).state@
                    &&& final(self).needs_refresh == old(self).needs_refresh
                    &&& final(self).last_error == Some(storage_to_wiki_spec(e))
                },
                _ => false,
            },
    {
        let address = match &self.state {
            NavState::Editing { address, .. } => address.clone(),
            _ => {
                proof {
                    assert(false);
                }
                PageAddress::new(String::new(), String::new())
            },
        };
        proof {
            assert(self.gate@.0[0] == address@);
            assert(self.gate@.0.contains(address@));
        }
        let _ = self.gate.release(&address);
        proof {
            assert(self.gate@.0 =~= Seq::<AddrV>::empty());
        }
        self.pending = Ghost(None);
        match result {
            Ok(_) => {
                self.cache.evict(&address);
                self.state = NavState::Listing;
                self.needs_refresh = true;
                self.last_error = None;
            },
            Err(e) => {
                self.last_error = Some(storage_to_wiki(e));
            },
        }
    }

    /// Routes one cycle's intercepted link events while viewing a page: the
    /// first event that resolves against the page's owner navigates exactly
    /// as a selection would; with no resolved event nothing changes.
    pub fn on_link_clicks(&mut self, hrefs: &Vec<String>) -> (fetch: Option<PageAddress>)
        requires
            old(self).wf(),
            old(self).pending@ is None,
            old(self).state@ is Viewing,
        ensures
            final(self).wf(),
            final(self).cache@ == old(self).cache@,
            opt_view(final(self).session) == opt_view(old(self).session),
            final(self).needs_refresh == old(self).needs_refresh,
            final(self).last_error == old(self).last_error,
            match old(self).state@ {
                StateV::Viewing { address, .. } => match first_resolved(
                    hrefs.deep_view(),
                    address.0,
                ) {
                    Some(target) => match lookup(old(self).cache@, target) {
                        Some(rec) => {
                            &&& fetch is None
                            &&& final(self).pending@ is None
                            &&& final(self).state@ == (StateV::Viewing {
                                address: target,
                                content: Some(rec.1),
                                error: None,
                            })
                        },
                        None => {
                            &&& (fetch matches Some(f) && f@ == target)
                            &&& final(self).pending@ == Some(PendingV::Fetch { address: target })
                            &&& final(self).state@ == (StateV::Viewing {
                                address: target,
                                content: None,
                                error: None,
                            })
                        },
                    },
                    None => {
                        &&& fetch is None
                        &&& final(self).pending@ is None
                        &&& final(self).state@ == old(self).state@
                    },
                },
                _ => false,
            },
    {
        let owner = match &self.state {
            NavState::Viewing { address, .. } => address.owner.clone(),
            _ => {
                proof {
                    assert(false);
                }
                String::new()
            },
        };
        match route_links(hrefs, owner.as_str()) {
            Some(target) => self.on_select(target),
            None => None,
        }
    }

    /// The index was re-read: the refresh mark is cleared.
    pub fn clear_refresh(&mut self)
        requires
            old(self).wf(),
        ensures
            final(self).wf(),
            final(self).needs_refresh == false,
            final(self).state@ == old(self).state@,
            final(self).cache@ == old(self).cache@,
            final(self).pending@ == old(self).pending@,
            opt_view(final(self).session) == opt_view(old(self).session),
            final(self).last_error == old(self).last_error,
    {
        self.needs_refresh = false;
    }
}

/// Once a fetch of `a` has been committed, the cache holds `a`: a later
/// selection of `a` is a hit and issues no further fetch (see `on_select`,
/// whose result asks for a fetch exactly when the cache misses).
pub proof fn lemma_no_refetch_after_commit(c: Seq<(AddrV, RecV)>, a: AddrV, r: RecV)
    ensures
        lookup(put_entry(c, a, r), a) is Some,
{
    crate::cache::lemma_lookup_put_same(c, a, r);
}

/// After a committed create of content under the backend-assigned address,
/// the cache serves exactly that content there (see `on_create_done`).
pub proof fn lemma_create_then_cached(c: Seq<(AddrV, RecV)>, a: AddrV, content: Seq<char>)
    ensures
        lookup(put_entry(c, a, (title_of(content), content)), a) == Some(
            (title_of(content), content),
        ),
{
    crate::cache::lemma_lookup_put_same(c, a, (title_of(content), content));
}

/// After a committed delete, the cache no longer holds the address (see
/// `on_delete_done`).
pub proof fn lemma_delete_then_absent(c: Seq<(AddrV, RecV)>, a: AddrV)
    requires
        cache_wf(c),
    ensures
        lookup(remove_entry(c, a), a) is None,
{
    crate::cache::lemma_lookup_remove_same(c, a);
}

} // verus!
