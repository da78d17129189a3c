//! Persistent state of the core: the insert-only channel registry.
//!
//! The registry maps a channel id to the [`ChannelInfo`] recorded when the
//! channel's connect handshake completed. It offers only lookup and
//! insert-if-absent; neither update nor delete exists, which enforces the
//! "channels never close" invariant structurally.

use vstd::map::*;
use vstd::prelude::*;

verus! {

/// Spec-level mirror of [`IbcEndpoint`].
#[verifier::ext_equal]
pub struct EndpointView {
    pub port_id: Seq<char>,
    pub channel_id: Seq<char>,
}

/// One end of a channel: a port and a channel id on some chain.
pub struct IbcEndpoint {
    pub port_id: String,
    pub channel_id: String,
}

impl View for IbcEndpoint {
    type V = EndpointView;

    open spec fn view(&self) -> EndpointView {
        EndpointView { port_id: self.port_id@, channel_id: self.channel_id@ }
    }
}

/// Spec-level mirror of [`ChannelInfo`].
#[verifier::ext_equal]
pub struct ChannelInfoView {
    pub channel_id: Seq<char>,
    pub counterparty_endpoint: EndpointView,
    pub connection_id: Seq<char>,
}

/// What the registry records about a channel whose handshake completed:
/// its id, the counterparty endpoint, and the underlying connection.
/// Immutable once recorded.
pub struct ChannelInfo {
    pub channel_id: String,
    pub counterparty_endpoint: IbcEndpoint,
    pub connection_id: String,
}

impl View for ChannelInfo {
    type V = ChannelInfoView;

    open spec fn view(&self) -> ChannelInfoView {
        ChannelInfoView {
            channel_id: self.channel_id@,
            counterparty_endpoint: self.counterparty_endpoint@,
            connection_id: self.connection_id@,
        }
    }
}

/// The channel registry: channel id to [`ChannelInfo`], insert-only.
///
/// Its view is the map from registered channel ids to the recorded infos.
pub struct ChannelRegistry {
    infos: Vec<ChannelInfo>,
}

impl View for ChannelRegistry {
    type V = Map<Seq<char>, ChannelInfoView>;

    closed spec fn view(&self) -> Map<Seq<char>, ChannelInfoView> {
        Map::new(
            |cid: Seq<char>|
                exists|i: int| 0 <= i < self.infos@.len() && self.infos@[i].channel_id@ == cid,
            |cid: Seq<char>|
                {
                    let i = choose|i: int|
                        0 <= i < self.infos@.len() && self.infos@[i].channel_id@ == cid;
                    self.infos@[i]@
                },
        )
    }
}

impl ChannelRegistry {
    /// Each channel id occurs at most once among the entries.
    pub closed spec fn well_formed(&self) -> bool {
        forall|i: int, j: int|
            0 <= i < j < self.infos@.len() ==> self.infos@[i].channel_id@
                != self.infos@[j].channel_id@
    }

    /// An empty registry: no channel is known.
    pub fn new() -> (r: ChannelRegistry)
        ensures
            r.well_formed(),
            r@ == Map::<Seq<char>, ChannelInfoView>::empty(),
    {
        let r = ChannelRegistry { infos: Vec::new() };
        proof {
            assert(r@ =~= Map::<Seq<char>, ChannelInfoView>::empty());
        }
        r
    }

    /// Whether a channel id is registered.
    pub fn has(&self, channel_id: &String) -> (r: bool)
        ensures
            r == self@.contains_key(channel_id@),
    {
        let n = self.infos.len();
        let mut i: usize = 0;
        while i < n
            invariant
                n == self.infos@.len(),
                i <= n,
                forall|j: int| 0 <= j < i ==> self.infos@[j].channel_id@ != channel_id@,
            decreases n - i,
        {
            if self.infos[i].channel_id == *channel_id {
                assert(self@.contains_key(channel_id@));
                return true;
            }
            i += 1;
        }
        assert(!self@.contains_key(channel_id@));
        false
    }

    /// The recorded info of a channel id, if any.
    pub fn get(&self, channel_id: &String) -> (r: Option<&ChannelInfo>)
        requires
            self.well_formed(),
        ensures
            match r {
                Some(info) => self@.contains_key(channel_id@) && info@ == self@[channel_id@],
                None => !self@.contains_key(channel_id@),
            },
    {
        let n = self.infos.len();
        let mut i: usize = 0;
        while i < n
            invariant
                n == self.infos@.len(),
                i <= n,
                self.well_formed(),
                forall|j: int| 0 <= j < i ==> self.infos@[j].channel_id@ != channel_id@,
            decreases n - i,
        {
            if self.infos[i].channel_id == *channel_id {
                proof {
                    assert(self@.contains_key(channel_id@));
                    let k = choose|k: int|
                        0 <= k < self.infos@.len() && self.infos@[k].channel_id@ == channel_id@;
                    assert(k == i);
                }
                return Some(&self.infos[i]);
            }
            i += 1;
        }
        assert(!self@.contains_key(channel_id@));
        None
    }

    /// Records a channel that is not yet registered. Insert-if-absent is the
    /// only write the registry offers.
    pub fn save(&mut self, info: ChannelInfo)
        requires
            old(self).well_formed(),
            !old(self)@.contains_key(info.channel_id@),
        ensures
            final(self).well_formed(),
            final(self)@ == old(self)@.insert(info.channel_id@, info@),
    {
        let ghost old_infos = self.infos@;
        let ghost iv = info@;
        self.infos.push(info);
        proof {
            let n = old_infos.len() as int;
            assert forall|j: int| 0 <= j < n implies self.infos@[j] == old_infos[j] by {}
            assert forall|i: int, j: int|
                0 <= i < j < self.infos@.len() implies self.infos@[i].channel_id@
                != self.infos@[j].channel_id@ by {
                if j < n {
                } else {
                    // j is the new entry; the old registry did not contain its id
                    assert(self.infos@[j].channel_id@ == iv.channel_id);
                    assert(!old(self)@.contains_key(iv.channel_id));
                    assert(self.infos@[i] == old_infos[i]);
                }
            }
            assert_maps_equal!(self@, old(self)@.insert(iv.channel_id, iv), cid => {
                if cid == iv.channel_id {
                    let k = choose|k: int|
                        0 <= k < self.infos@.len() && self.infos@[k].channel_id@ == cid;
                    assert(self.infos@[n].channel_id@ == cid);
                    assert(self@.contains_key(cid));
                    assert(k == n);
                } else {
                    if old(self)@.contains_key(cid) {
                        let k = choose|k: int|
                            0 <= k < old_infos.len() && old_infos[k].channel_id@ == cid;
                        assert(self.infos@[k].channel_id@ == cid);
                        let k2 = choose|k2: int|
                            0 <= k2 < self.infos@.len() && self.infos@[k2].channel_id@ == cid;
                        assert(k2 == k);
                    } else {
                        if self@.contains_key(cid) {
                            let k = choose|k: int|
                                0 <= k < self.infos@.len() && self.infos@[k].channel_id@ == cid;
                            assert(k < n);
                            assert(old_infos[k].channel_id@ == cid);
                        }
                    }
                }
            });
        }
    }

}

} // verus!
