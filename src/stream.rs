//! The streaming relay: every provider delta is sent to the client and added
//! to an accumulator, failures become one in-band `ERROR: ` line, and the
//! accumulated reply is handed out for saving exactly once, however the
//! stream ends.

use vstd::prelude::*;
use crate::access::{authorize_chat, owner_view, owns};
use crate::error::{error_text, AppError};
use crate::keys::{decrypt_stored_key, missing_key_message, opened, sealed};
use crate::provider::{
    get_llm_client, provider_named, supports_web_search_spec, unsupported_message, LlmClient,
    Provider,
};
use crate::text::{chars_of, is_whitespace, is_ws};

verus! {

/// Whether every character of `s` is whitespace (true of the empty text).
pub open spec fn blank(s: Seq<char>) -> bool {
    forall|i: int| 0 <= i < s.len() ==> is_ws(#[trigger] s[i])
}

/// The chunks, joined in order.
pub open spec fn concat(cs: Seq<Seq<char>>) -> Seq<char>
    decreases cs.len(),
{
    if cs.len() == 0 {
        seq![]
    } else {
        concat(cs.drop_last()) + cs.last()
    }
}

/// What a stream that relayed `chunks` leaves to be saved.
pub open spec fn content_to_save(chunks: Seq<Seq<char>>) -> Option<Seq<char>> {
    if blank(concat(chunks)) {
        None
    } else {
        Some(concat(chunks))
    }
}

/// A provider item as the relay sees it: a delta's text, or `None` for a failure.
pub type ItemView = Option<Seq<char>>;

/// The relay's abstract state: the chunks relayed so far, whether a
/// failure stopped the stream, whether the reply was handed out for saving.
pub struct RelayView {
    pub relayed: Seq<Seq<char>>,
    pub stopped: bool,
    pub saved: bool,
}

pub open spec fn initial_relay() -> RelayView {
    RelayView { relayed: seq![], stopped: false, saved: false }
}

pub open spec fn relay_step(v: RelayView, item: ItemView) -> RelayView {
    if v.stopped {
        v
    } else {
        match item {
            Some(c) => RelayView { relayed: v.relayed.push(c), ..v },
            None => RelayView { stopped: true, ..v },
        }
    }
}

/// The relay's state after the provider items `items`, in order.
pub open spec fn run(items: Seq<ItemView>) -> RelayView
    decreases items.len(),
{
    if items.len() == 0 {
        initial_relay()
    } else {
        relay_step(run(items.drop_last()), items.last())
    }
}

/// The chunks a provider delivers before its first failure.
pub open spec fn delivered(items: Seq<ItemView>) -> Seq<Seq<char>>
    decreases items.len(),
{
    if items.len() == 0 {
        seq![]
    } else {
        match items[0] {
            None => seq![],
            Some(c) => seq![c] + delivered(items.drop_first()),
        }
    }
}

/// What `finish` hands out on a relay in state `v`.
pub open spec fn finish_result(v: RelayView) -> Option<Seq<char>> {
    if v.saved {
        None
    } else {
        content_to_save(v.relayed)
    }
}

pub open spec fn finish_state(v: RelayView) -> RelayView {
    RelayView { saved: true, ..v }
}

pub open spec fn item_view(item: Result<String, AppError>) -> ItemView {
    match item {
        Ok(c) => Some(c@),
        Err(_) => None,
    }
}

/// The line sent to the client in place of a failed item.
pub open spec fn sentinel(e: AppError) -> Seq<char> {
    "ERROR: "@ + error_text(e)
}

/// What a validated stream request goes on with: the vendor, its plaintext
/// key, and whether the vendor's web search is used.
#[derive(Debug, Clone)]
pub struct StreamStart {
    pub client: LlmClient,
    pub web_search: bool,
}

/// Whether web search is used: asked for, and supported by the vendor.
pub open spec fn uses_web_search(requested: Option<bool>, p: Provider) -> bool {
    requested == Some(true) && supports_web_search_spec(p)
}

/// Validates a stream (or regeneration) request before any byte is sent:
/// the chat must be the caller's (else `NotFound`), a key must be stored for
/// its provider (else a bad request), the key must decrypt (else an internal
/// fault) and the provider must be known (else a bad request).
pub fn begin_stream(
    owner: &Option<String>,
    caller: &String,
    provider_name: &String,
    stored_key: &Option<String>,
    master: &str,
    web_search: Option<bool>,
) -> (r: Result<StreamStart, AppError>)
    ensures
        !owns(owner_view(owner), caller@) ==> r == Err::<StreamStart, AppError>(AppError::NotFound),
        owns(owner_view(owner), caller@) && stored_key is None ==> (r is Err && r->Err_0 is BadRequest
            && r->Err_0->BadRequest_0@ == missing_key_message(provider_name@)),
        owns(owner_view(owner), caller@) && stored_key is Some && opened(master@, stored_key->0@) is None
            ==> r == Err::<StreamStart, AppError>(AppError::InternalServerError),
        owns(owner_view(owner), caller@) && stored_key is Some && opened(master@, stored_key->0@) is Some
            && provider_named(provider_name@) is None ==> (r is Err && r->Err_0 is BadRequest
            && r->Err_0->BadRequest_0@ == unsupported_message(provider_name@)),
        r is Ok <==> (owns(owner_view(owner), caller@) && stored_key is Some && opened(master@, stored_key->0@) is Some
            && provider_named(provider_name@) is Some),
        r is Ok ==> ({
            let s = r->Ok_0;
            &&& Some(s.client.provider) == provider_named(provider_name@)
            &&& opened(master@, stored_key->0@) == Some(s.client.api_key@)
            &&& s.web_search == uses_web_search(web_search, s.client.provider)
        }),
        forall|p: Seq<char>|
            owns(owner_view(owner), caller@) && stored_key is Some && stored_key->0@ == #[trigger] sealed(master@, p)
                && provider_named(provider_name@) is Some ==> (r is Ok && r->Ok_0.client.api_key@ == p),
{
    match authorize_chat(owner, caller) {
        Err(e) => {
            return Err(e);
        },
        Ok(()) => {},
    }
    let api_key = match decrypt_stored_key(provider_name.as_str(), stored_key, master) {
        Ok(k) => k,
        Err(e) => {
            return Err(e);
        },
    };
    let client = match get_llm_client(provider_name.as_str(), api_key.as_str()) {
        Ok(c) => c,
        Err(e) => {
            return Err(e);
        },
    };
    let ws = match web_search {
        Some(true) => client.provider.supports_web_search(),
        _ => false,
    };
    Ok(StreamStart { client, web_search: ws })
}

/// Per-request relay and accumulator.
pub struct StreamRelay {
    content: String,
    stopped: bool,
    saved: bool,
    relayed: Ghost<Seq<Seq<char>>>,
}

impl View for StreamRelay {
    type V = RelayView;

    closed spec fn view(&self) -> RelayView {
        RelayView { relayed: self.relayed@, stopped: self.stopped, saved: self.saved }
    }
}

impl StreamRelay {
    /// The accumulator holds exactly the relayed chunks.
    pub closed spec fn wf(&self) -> bool {
        self.content@ == concat(self.relayed@)
    }

    pub fn new() -> (r: StreamRelay)
        ensures
            r.wf(),
            r@ == initial_relay(),
    {
        StreamRelay { content: String::new(), stopped: false, saved: false, relayed: Ghost(Seq::empty()) }
    }

    /// Whether a failure has ended the stream.
    pub fn is_stopped(&self) -> (r: bool)
        ensures
            r == self@.stopped,
    {
        self.stopped
    }

    /// Takes one provider item. Returns what the client is sent for it: the
    /// delta itself, or for a failure the `ERROR: ` line, after which the
    /// stream is stopped. Once stopped, nothing is sent.
    pub fn relay(&mut self, item: Result<String, AppError>) -> (out: Option<String>)
        requires
            old(self).wf(),
        ensures
            final(self).wf(),
            final(self)@ == relay_step(old(self)@, item_view(item)),
            old(self)@.stopped ==> out is None,
            !old(self)@.stopped ==> match item {
                Ok(c) => out is Some && out->0@ == c@,
                Err(e) => out is Some && out->0@ == sentinel(e),
            },
    {
        if self.stopped {
            return None;
        }
        match item {
            Ok(chunk) => {
                proof {
                    let cs = self.relayed@.push(chunk@);
                    assert(cs.drop_last() =~= self.relayed@);
                }
                self.content.append(chunk.as_str());
                self.relayed = Ghost(self.relayed@.push(chunk@));
                Some(chunk)
            },
            Err(e) => {
                self.stopped = true;
                let mut line = String::from_str("ERROR: ");
                let t = e.to_string();
                line.append(t.as_str());
                Some(line)
            },
        }
    }

    /// The exit hook: run when the stream ends for any reason (completion,
    /// failure, or the client going away). The first call hands out the
    /// accumulated reply unless it is blank; later calls hand out nothing.
    pub fn finish(&mut self) -> (r: Option<String>)
        requires
            old(self).wf(),
        ensures
            final(self).wf(),
            final(self)@ == finish_state(old(self)@),
            match r {
                Some(s) => finish_result(old(self)@) == Some(s@),
                None => finish_result(old(self)@) is None,
            },
    {
        if self.saved {
            return None;
        }
        self.saved = true;
        let v = chars_of(self.content.as_str());
        let mut i: usize = 0;
        while i < v.len()
            invariant
                i <= v.len(),
                v@ == concat(self.relayed@),
                self.wf(),
                self@ == finish_state(old(self)@),
                !old(self)@.saved,
                forall|j: int| 0 <= j < i ==> is_ws(#[trigger] v@[j]),
            decreases v.len() - i,
        {
            if !is_whitespace(v[i]) {
                let r = self.content.clone();
                assert(!is_ws(v@[i as int]));
                assert(!blank(concat(self.relayed@)));
                return Some(r);
            }
            i = i + 1;
        }
        None
    }
}

/// `run` stops at the first failure, and before it relays exactly the
/// delivered chunks; with no failure it has not stopped.
proof fn lemma_run_delivered(items: Seq<ItemView>)
    ensures
        run(items).relayed == delivered(items),
        run(items).saved == false,
        run(items).stopped <==> exists|i: int| 0 <= i < items.len() && items[i] is None,
    decreases items.len(),
{
    if items.len() > 0 {
        let init = items.drop_last();
        lemma_run_delivered(init);
        lemma_delivered_snoc(init, items.last());
        assert(init.push(items.last()) =~= items);
        if run(init).stopped {
            let i = choose|i: int| 0 <= i < init.len() && init[i] is None;
            assert(items[i] is None);
        } else {
            assert forall|i: int| 0 <= i < items.len() - 1 implies !(items[i] is None) by {
                assert(init[i] == items[i]);
            }
        }
    }
}

/// Appending an item to a stream that has not failed adds its chunk, unless
/// the item is a failure; after a failure nothing is added.
proof fn lemma_delivered_snoc(items: Seq<ItemView>, x: ItemView)
    ensures
        delivered(items.push(x)) == if exists|i: int| 0 <= i < items.len() && items[i] is None {
            delivered(items)
        } else {
            match x {
                Some(c) => delivered(items).push(c),
                None => delivered(items),
            }
        },
    decreases items.len(),
{
    if items.len() == 0 {
        assert(items.push(x).drop_first() =~= seq![]);
        match x {
            Some(c) => {
                assert(delivered(items.push(x).drop_first()) == Seq::<Seq<char>>::empty());
                assert(seq![c] + Seq::<Seq<char>>::empty() =~= Seq::<Seq<char>>::empty().push(c));
            },
            None => {},
        }
    } else {
        let tail = items.drop_first();
        assert(items.push(x).drop_first() =~= tail.push(x));
        lemma_delivered_snoc(tail, x);
        assert(items.push(x)[0] == items[0]);
        if !(items[0] is None) {
            let head: Seq<Seq<char>> = seq![items[0]->0];
            if exists|i: int| 0 <= i < tail.len() && tail[i] is None {
                let i = choose|i: int| 0 <= i < tail.len() && tail[i] is None;
                assert(items[i + 1] is None);
            } else {
                assert forall|i: int| 0 <= i < items.len() implies !(items[i] is None) by {
                    if i > 0 {
                        assert(tail[i - 1] == items[i]);
                    }
                }
                match x {
                    Some(c) => {
                        assert(head + delivered(tail).push(c) =~= (head + delivered(tail)).push(c));
                    },
                    None => {},
                }
            }
        }
    }
}

/// A stream that delivers at least one chunk before any failure, whose joined text is not
/// blank leaves exactly one reply to save: the delivered chunks joined in order;
/// a second exit hands out nothing more.
pub proof fn law_reply_saved_once(items: Seq<ItemView>)
    requires
        !blank(concat(delivered(items))),
    ensures
        delivered(items).len() >= 1,
        finish_result(run(items)) == Some(concat(delivered(items))),
        finish_result(finish_state(run(items))) is None,
{
    lemma_run_delivered(items);
    if delivered(items).len() == 0 {
        assert(concat(delivered(items)) =~= Seq::<char>::empty());
    }
}

/// A client that goes away after `k` items, before the provider is done,
/// still leaves saved exactly the chunks it was sent, joined in order.
pub proof fn law_saved_on_disconnect(items: Seq<ItemView>, k: int)
    requires
        0 <= k <= items.len(),
    ensures
        finish_result(run(items.take(k))) == content_to_save(delivered(items.take(k))),
        delivered(items.take(k)) == delivered(items).take(
            delivered(items.take(k)).len() as int,
        ),
{
    lemma_run_delivered(items.take(k));
    lemma_delivered_prefix(items, k);
}

proof fn lemma_delivered_prefix(items: Seq<ItemView>, k: int)
    requires
        0 <= k <= items.len(),
    ensures
        delivered(items.take(k)) == delivered(items).take(delivered(items.take(k)).len() as int),
        delivered(items.take(k)).len() <= delivered(items).len(),
    decreases k,
{
    if k > 0 {
        let t = items.drop_first();
        assert(items.take(k).drop_first() =~= t.take(k - 1));
        lemma_delivered_prefix(t, k - 1);
        assert(items.take(k)[0] == items[0]);
    } else {
        assert(items.take(0) =~= Seq::<ItemView>::empty());
    }
}

/// A stream whose first item is a failure leaves nothing to save, whenever
/// the client stops reading.
pub proof fn law_nothing_saved_on_early_failure(items: Seq<ItemView>, k: int)
    requires
        items.len() >= 1,
        items[0] is None,
        0 <= k <= items.len(),
    ensures
        finish_result(run(items.take(k))) is None,
{
    lemma_run_delivered(items.take(k));
    if k > 0 {
        assert(items.take(k)[0] is None);
    } else {
        assert(items.take(k) =~= Seq::<ItemView>::empty());
    }
    assert(concat(Seq::<Seq<char>>::empty()) =~= Seq::<char>::empty());
}

} // verus!
