//! The live connections, in the order they were accepted, and the
//! resolution of destinations against them.
use crate::libserver::{
    blob_error, expected_blobs, sender_updated, use_blob, BlobBody, BlobDestination, ClientInfo,
    OutgoingBlob,
    ServerUnpackBlobError,
};
use crate::messages::TopLevelMessage;
use crate::pdu::{
    expected_read, frame_rest, maybe_get_pdu, read_view, received, PDUReadErr, PDUReadOk,
    ReadOutcome,
};
use crate::roles::{has_role, roles_of};
use vstd::prelude::*;

verus! {

/// Whether connection `i` of `cs` receives what is sent to `dest`. A
/// unicast address reaches only the earliest connection that claimed it.
pub open spec fn is_recipient(cs: Seq<ClientInfo>, dest: BlobDestination, i: int) -> bool {
    &&& 0 <= i < cs.len()
    &&& match dest {
        BlobDestination::Broadcast => true,
        BlobDestination::Multicast(r) => roles_of(cs[i].current_roles).contains(r),
        BlobDestination::Unicast(a) => {
            &&& cs[i].self_assigned_addr == Some(a)
            &&& forall|j: int| 0 <= j < i ==> cs[j].self_assigned_addr != Some(a)
        },
    }
}

/// `ids` lists, in increasing order, exactly the recipients of `dest`.
pub open spec fn resolves(cs: Seq<ClientInfo>, dest: BlobDestination, ids: Seq<usize>) -> bool {
    &&& forall|k: int| 0 <= k < ids.len() ==> is_recipient(cs, dest, #[trigger] ids[k] as int)
    &&& forall|k: int, l: int| 0 <= k < l < ids.len() ==> ids[k] < ids[l]
    &&& forall|i: int| #[trigger] is_recipient(cs, dest, i) ==> ids.contains(i as usize)
}

/// `ds` holds each of `blobs`, in order, with exactly its recipients in `cs`.
pub open spec fn delivered(cs: Seq<ClientInfo>, blobs: Seq<OutgoingBlob>, ds: Seq<Delivery>) -> bool {
    &&& ds.len() == blobs.len()
    &&& forall|k: int|
        0 <= k < ds.len() ==> (#[trigger] ds[k]).blob == blobs[k].blob && resolves(
            cs,
            blobs[k].dest,
            ds[k].recipients@,
        )
}

/// One blob to send, with the connections it goes to.
#[derive(Debug)]
pub struct Delivery {
    pub blob: BlobBody,
    pub recipients: Vec<usize>,
}

/// The connection registry: one entry per live connection, addressed by
/// its position.
pub struct Registry {
    clients: Vec<ClientInfo>,
}

impl View for Registry {
    type V = Seq<ClientInfo>;

    closed spec fn view(&self) -> Seq<ClientInfo> {
        self.clients@
    }
}

impl Registry {
    pub fn new() -> (r: Registry)
        ensures
            r@ == Seq::<ClientInfo>::empty(),
    {
        Registry { clients: Vec::new() }
    }

    pub fn len(&self) -> (r: usize)
        ensures
            r == self@.len(),
    {
        self.clients.len()
    }

    /// Adds a connection at the end; returns its position.
    pub fn insert(&mut self, info: ClientInfo) -> (id: usize)
        ensures
            final(self)@ == old(self)@.push(info),
            id == old(self)@.len(),
    {
        let id = self.clients.len();
        self.clients.push(info);
        id
    }

    /// Removes the connection at position `i`; later ones move down by one.
    pub fn remove(&mut self, i: usize) -> (r: ClientInfo)
        requires
            i < old(self)@.len(),
        ensures
            r == old(self)@[i as int],
            final(self)@ == old(self)@.remove(i as int),
    {
        self.clients.remove(i)
    }

    /// The connection at position `i`.
    pub fn client(&self, i: usize) -> (r: &ClientInfo)
        requires
            i < self@.len(),
        ensures
            *r == self@[i as int],
    {
        &self.clients[i]
    }

    /// The positions of the connections that receive what is sent to
    /// `dest`, in increasing order: all of them for a broadcast, the
    /// subscribers of the role for a multicast, at most one for a unicast.
    pub fn resolve(&self, dest: &BlobDestination) -> (r: Vec<usize>)
        ensures
            resolves(self@, *dest, r@),
    {
        let ghost cs = self@;
        let n = self.clients.len();
        let mut out: Vec<usize> = Vec::new();
        let mut i: usize = 0;
        while i < n
            invariant
                cs == self@,
                n == cs.len(),
                i <= n,
                forall|k: int| 0 <= k < out@.len() ==> is_recipient(cs, *dest, #[trigger] out@[k] as int),
                forall|k: int| 0 <= k < out@.len() ==> #[trigger] out@[k] < i,
                forall|k: int, l: int| 0 <= k < l < out@.len() ==> out@[k] < out@[l],
                forall|j: int| 0 <= j < i && #[trigger] is_recipient(cs, *dest, j) ==> out@.contains(
                    j as usize,
                ),
                match *dest {
                    BlobDestination::Unicast(a) => (out@.len() == 0 <==> forall|j: int|
                        0 <= j < i ==> cs[j].self_assigned_addr != Some(a)),
                    _ => true,
                },
            decreases n - i,
        {
            let c = &self.clients[i];
            let hit = match dest {
                BlobDestination::Broadcast => true,
                BlobDestination::Multicast(role) => has_role(&c.current_roles, *role),
                BlobDestination::Unicast(a) => {
                    out.len() == 0 && match c.self_assigned_addr {
                        Some(b) => b == *a,
                        None => false,
                    }
                },
            };
            assert(hit == is_recipient(cs, *dest, i as int));
            let ghost before = out@;
            if hit {
                out.push(i);
                assert(out@[out@.len() - 1] == i);
            }
            proof {
                assert forall|j: int| 0 <= j < i + 1 && #[trigger] is_recipient(cs, *dest, j) implies out@.contains(
                    j as usize,
                ) by {
                    if j < i {
                        assert(before.contains(j as usize));
                        let k = choose|k: int| 0 <= k < before.len() && before[k] == j as usize;
                        assert(out@[k] == j as usize);
                    } else {
                        assert(out@[out@.len() - 1] == j as usize);
                    }
                }
            }
            i = i + 1;
        }
        out
    }

    /// One framing attempt on connection `i` with what its transport read
    /// gave (see `maybe_get_pdu`). Only that connection's buffer changes.
    pub fn feed(&mut self, i: usize, input: ReadOutcome) -> (r: Result<PDUReadOk, PDUReadErr>)
        requires
            i < old(self)@.len(),
            old(self)@[i as int].reader@.len() + received(input).len() <= usize::MAX,
        ensures
            final(self)@.len() == old(self)@.len(),
            forall|j: int| 0 <= j < old(self)@.len() && j != i ==> final(self)@[j] == old(self)@[j],
            read_view(r) == expected_read(old(self)@[i as int].reader@ + received(input), input),
            final(self)@[i as int].reader@ == (match input {
                ReadOutcome::Failed => old(self)@[i as int].reader@,
                _ => frame_rest(old(self)@[i as int].reader@ + received(input)),
            }),
            final(self)@[i as int].self_assigned_addr == old(self)@[i as int].self_assigned_addr,
            final(self)@[i as int].current_roles == old(self)@[i as int].current_roles,
    {
        maybe_get_pdu(&mut self.clients[i].reader, input)
    }

    /// Interprets a frame from connection `i` (see `use_blob`) and resolves
    /// each resulting blob against the registry as it stands after the
    /// sender's state was updated.
    pub fn deliver(&mut self, i: usize, frame: Vec<u8>, decoded: Option<TopLevelMessage>) -> (r:
        Result<Vec<Delivery>, ServerUnpackBlobError>)
        requires
            i < old(self)@.len(),
        ensures
            blob_error(decoded) is Some ==> (r matches Err(e) && Some(e) == blob_error(decoded)
                && final(self)@ == old(self)@),
            blob_error(decoded) is None ==> {
                &&& final(self)@.len() == old(self)@.len()
                &&& forall|j: int|
                    0 <= j < old(self)@.len() && j != i ==> final(self)@[j] == old(self)@[j]
                &&& sender_updated(old(self)@[i as int], final(self)@[i as int], decoded)
            },
            blob_error(decoded) is None ==> (r matches Ok(ds) && delivered(
                final(self)@,
                expected_blobs(frame, decoded),
                ds@,
            )),
    {
        let res = use_blob(&mut self.clients[i], frame, decoded);
        let blobs = match res {
            Err(e) => {
                return Err(e);
            },
            Ok(None) => {
                return Ok(Vec::new());
            },
            Ok(Some(blobs)) => blobs,
        };
        let ghost exp = blobs@;
        let mut blobs = blobs;
        let mut ds: Vec<Delivery> = Vec::new();
        while blobs.len() > 0
            invariant
                blobs@ == exp.skip(ds@.len() as int),
                ds@.len() <= exp.len(),
                forall|k: int|
                    0 <= k < ds@.len() ==> (#[trigger] ds@[k]).blob == exp[k].blob && resolves(
                        self@,
                        exp[k].dest,
                        ds@[k].recipients@,
                    ),
            decreases blobs@.len(),
        {
            let b = blobs.remove(0);
            assert(b == exp[ds@.len() as int]);
            let recipients = self.resolve(&b.dest);
            ds.push(Delivery { blob: b.blob, recipients });
            assert(blobs@ =~= exp.skip(ds@.len() as int));
        }
        assert(ds@.len() == exp.len());
        Ok(ds)
    }
}

proof fn lemma_broadcast_prefix(cs: Seq<ClientInfo>, ids: Seq<usize>, k: int)
    requires
        cs.len() <= usize::MAX,
        resolves(cs, BlobDestination::Broadcast, ids),
        0 <= k < ids.len(),
    ensures
        forall|m: int| 0 <= m <= k ==> #[trigger] ids[m] == m,
    decreases k,
{
    if k > 0 {
        lemma_broadcast_prefix(cs, ids, k - 1);
        assert(ids[k - 1] == k - 1);
    }
    assert(ids[k] >= k) by {
        if k > 0 {
            assert(ids[k - 1] < ids[k]);
        }
    }
    assert(is_recipient(cs, BlobDestination::Broadcast, ids[k] as int));
    assert(is_recipient(cs, BlobDestination::Broadcast, k));
    let m = choose|m: int| 0 <= m < ids.len() && ids[m] == k as usize;
    if m < k {
        assert(ids[m] == m);
    } else if m > k {
        assert(ids[k] < ids[m]);
    }
}

/// A broadcast reaches every live connection, each once, in order; a
/// multicast reaches exactly the subscribers of its role; a unicast
/// reaches at most one connection, even where several claimed the address.
pub proof fn lemma_resolution(cs: Seq<ClientInfo>, dest: BlobDestination, ids: Seq<usize>)
    requires
        cs.len() <= usize::MAX,
        resolves(cs, dest, ids),
    ensures
        dest is Broadcast ==> ids == Seq::new(cs.len(), |i: int| i as usize),
        match dest {
            BlobDestination::Multicast(r) => forall|i: int|
                0 <= i < cs.len() ==> (ids.contains(i as usize) <==> roles_of(
                    #[trigger] cs[i].current_roles,
                ).contains(r)),
            _ => true,
        },
        dest is Unicast ==> ids.len() <= 1,
{
    if dest is Broadcast {
        let n = ids.len() as int;
        if n > 0 {
            lemma_broadcast_prefix(cs, ids, n - 1);
            assert(is_recipient(cs, dest, ids[n - 1] as int));
        }
        if n < cs.len() {
            assert(is_recipient(cs, dest, n));
            let m = choose|m: int| 0 <= m < ids.len() && ids[m] == n as usize;
            lemma_broadcast_prefix(cs, ids, n - 1);
            assert(ids[m] == m);
        }
        assert(ids.len() == cs.len());
        if n > 0 {
            lemma_broadcast_prefix(cs, ids, n - 1);
        }
        assert(ids =~= Seq::new(cs.len(), |i: int| i as usize));
    }
    if let BlobDestination::Multicast(r) = dest {
        assert forall|i: int| 0 <= i < cs.len() implies (ids.contains(i as usize) <==> roles_of(
            #[trigger] cs[i].current_roles,
        ).contains(r)) by {
            if ids.contains(i as usize) {
                let k = choose|k: int| 0 <= k < ids.len() && ids[k] == i as usize;
                assert(is_recipient(cs, dest, ids[k] as int));
            }
            if roles_of(cs[i].current_roles).contains(r) {
                assert(is_recipient(cs, dest, i));
            }
        }
    }
    if dest is Unicast && ids.len() > 1 {
        assert(is_recipient(cs, dest, ids[0] as int));
        assert(is_recipient(cs, dest, ids[1] as int));
        assert(ids[0] < ids[1]);
    }
}

} // verus!
