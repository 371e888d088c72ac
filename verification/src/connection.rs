//! Connection bookkeeping: the pairing of a client stream with its remote
//! stream, the count of live connections, and the bounded pool of relay
//! buffers.

use vstd::prelude::*;

verus! {

/// Size of one relay buffer.
pub const BUFFER_SIZE: usize = 16384;

/// Ceiling on pooled buffers.
pub const BUFFER_POOL_CAP: usize = 512;

/// A client stream paired with the remote stream it relays to.
pub struct ProxyConnection<C, R> {
    client_stream: C,
    remote_stream: R,
}

impl<C, R> ProxyConnection<C, R> {
    /// The client half.
    pub closed spec fn spec_client(&self) -> &C {
        &self.client_stream
    }

    /// The remote half.
    pub closed spec fn spec_remote(&self) -> &R {
        &self.remote_stream
    }

    /// Pairs a client stream with a remote stream.
    pub fn new(client_stream: C, remote_stream: R) -> (r: Self)
        ensures
            *r.spec_client() == client_stream,
            *r.spec_remote() == remote_stream,
    {
        ProxyConnection { client_stream, remote_stream }
    }

    /// Takes both halves back, for the relay loop.
    pub fn into_parts(self) -> (r: (C, R))
        ensures
            r.0 == *self.spec_client(),
            r.1 == *self.spec_remote(),
    {
        (self.client_stream, self.remote_stream)
    }
}

/// Counts the connections currently being relayed.
pub struct ConnectionManager {
    active_connections: usize,
}

impl ConnectionManager {
    /// The current count.
    pub closed spec fn spec_count(&self) -> usize {
        self.active_connections
    }

    /// A manager with no connections yet.
    pub fn new() -> (r: Self)
        ensures
            r.spec_count() == 0,
    {
        ConnectionManager { active_connections: 0 }
    }

    /// The number of live connections.
    pub fn active_count(&self) -> (r: usize)
        ensures
            r == self.spec_count(),
    {
        self.active_connections
    }

    /// Notes one more live connection, sticking at the ceiling.
    pub fn connection_opened(&mut self)
        ensures
            final(self).spec_count() == if old(self).spec_count() < usize::MAX {
                (old(self).spec_count() + 1) as usize
            } else {
                usize::MAX
            },
    {
        if self.active_connections < usize::MAX {
            self.active_connections = self.active_connections + 1;
        }
    }

    /// Notes one connection gone, sticking at zero.
    pub fn connection_closed(&mut self)
        ensures
            final(self).spec_count() == if old(self).spec_count() > 0 {
                (old(self).spec_count() - 1) as usize
            } else {
                0usize
            },
    {
        if self.active_connections > 0 {
            self.active_connections = self.active_connections - 1;
        }
    }
}

impl Default for ConnectionManager {
    /// Same as [`ConnectionManager::new`].
    fn default() -> (r: Self)
        ensures
            r.spec_count() == 0,
    {
        ConnectionManager::new()
    }
}

/// A bounded stack of relay buffers: taking one reuses a pooled buffer or
/// allocates fresh; returning one is dropped once the pool is full.
pub struct BufferPool {
    buffers: Vec<Vec<u8>>,
}

impl BufferPool {
    /// Every pooled buffer has the fixed size and the pool is bounded.
    pub closed spec fn wf(&self) -> bool {
        &&& self.buffers@.len() <= BUFFER_POOL_CAP
        &&& forall|i: int|
            0 <= i < self.buffers@.len() ==> (#[trigger] self.buffers@[i])@.len() == BUFFER_SIZE
    }

    /// The number of pooled buffers.
    pub closed spec fn spec_len(&self) -> int {
        self.buffers@.len() as int
    }

    /// An empty pool.
    pub fn new() -> (r: Self)
        ensures
            r.wf(),
            r.spec_len() == 0,
    {
        BufferPool { buffers: Vec::new() }
    }

    /// Takes a buffer of the fixed size: a pooled one when available, a
    /// fresh zeroed one otherwise.
    pub fn get(&mut self) -> (r: Vec<u8>)
        requires
            old(self).wf(),
        ensures
            final(self).wf(),
            r@.len() == BUFFER_SIZE,
            final(self).spec_len() == if old(self).spec_len() > 0 {
                old(self).spec_len() - 1
            } else {
                0
            },
    {
        match self.buffers.pop() {
            Some(buf) => buf,
            None => crate::schedule::zero_vec(BUFFER_SIZE),
        }
    }

    /// Returns a buffer to the pool; a full pool drops it.
    pub fn put(&mut self, buf: Vec<u8>)
        requires
            old(self).wf(),
            buf@.len() == BUFFER_SIZE,
        ensures
            final(self).wf(),
            final(self).spec_len() == if old(self).spec_len() < BUFFER_POOL_CAP {
                old(self).spec_len() + 1
            } else {
                old(self).spec_len()
            },
    {
        if self.buffers.len() < BUFFER_POOL_CAP {
            self.buffers.push(buf);
        }
    }
}

} // verus!
