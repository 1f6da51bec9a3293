use vstd::prelude::*;

verus! {

/// Host-side handle naming an open I/O object.
pub type Handle = u32;

/// A TCP connection owned by the host, named by its handle.
pub struct TcpStream {
    handle: Handle,
}

impl TcpStream {
    pub closed spec fn spec_handle(self) -> Handle {
        self.handle
    }

    /// Adopts the handle the host returned for an open connection.
    pub fn from_handle(handle: Handle) -> (s: TcpStream)
        ensures
            s.spec_handle() == handle,
    {
        TcpStream { handle }
    }

    /// The handle to pass back to the host.
    pub fn handle(&self) -> (h: Handle)
        ensures
            h == self.spec_handle(),
    {
        self.handle
    }
}

/// A listening TCP socket owned by the host, named by its handle.
pub struct TcpListener {
    handle: Handle,
}

impl TcpListener {
    pub closed spec fn spec_handle(self) -> Handle {
        self.handle
    }

    /// Adopts the handle the host returned for a listening socket.
    pub fn from_handle(handle: Handle) -> (s: TcpListener)
        ensures
            s.spec_handle() == handle,
    {
        TcpListener { handle }
    }

    /// The handle to pass back to the host.
    pub fn handle(&self) -> (h: Handle)
        ensures
            h == self.spec_handle(),
    {
        self.handle
    }
}

/// A UDP socket owned by the host, named by its handle.
pub struct UdpSocket {
    handle: Handle,
}

impl UdpSocket {
    pub closed spec fn spec_handle(self) -> Handle {
        self.handle
    }

    /// Adopts the handle the host returned for a datagram socket.
    pub fn from_handle(handle: Handle) -> (s: UdpSocket)
        ensures
            s.spec_handle() == handle,
    {
        UdpSocket { handle }
    }

    /// The handle to pass back to the host.
    pub fn handle(&self) -> (h: Handle)
        ensures
            h == self.spec_handle(),
    {
        self.handle
    }
}

} // verus!
