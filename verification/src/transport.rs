use vstd::prelude::*;
use vstd::string::StringExecFns;
use crate::decimal::{decimal, law_decimal_reads_back, push_decimal, reads_as_number};

verus! {

/// The error answered when the server cannot listen on its address.
#[derive(Debug)]
pub struct SockError {
    pub msg: String,
}

/// The address a server binds: its host, a colon, and its port in decimal.
pub open spec fn socket_address(host: Seq<char>, port: int) -> Seq<char> {
    host + seq![':'] + decimal(port)
}

/// The address `host:port` on which a server listens.
pub fn bind_address(host: &String, port: i32) -> (addr: String)
    ensures
        addr@ == socket_address(host@, port as int),
{
    let mut addr = host.clone();
    addr.append(":");
    let ghost before = addr@;
    if port < 0 {
        addr.append("-");
        let magnitude: u64 = (0i64 - (port as i64)) as u64;
        push_decimal(&mut addr, magnitude);
    } else {
        push_decimal(&mut addr, port as u64);
    }
    proof {
        reveal_strlit(":");
        reveal_strlit("-");
    }
    assert(addr@ =~= socket_address(host@, port as int));
    addr
}

/// What `listen` keeps afterwards, from what it kept before and what binding the
/// address gave (a listener and a handle on it, or an error). A kept listener is
/// handed out and not kept; without one, a successful bind keeps the handle.
pub open spec fn kept_after<L, E>(kept: Option<L>, bound: Result<(L, L), E>) -> Option<L> {
    match kept {
        Some(_) => None,
        None => match bound {
            Ok((_, handle)) => Some(handle),
            Err(_) => None,
        },
    }
}

/// The listener that `listen` answers, if any: the kept one, or else the one bound.
pub open spec fn listen_answer<L, E>(kept: Option<L>, bound: Result<(L, L), E>) -> Option<L> {
    match kept {
        Some(l) => Some(l),
        None => match bound {
            Ok((ln, _)) => Some(ln),
            Err(_) => None,
        },
    }
}

/// The listener in a `listen` result, if it is one.
pub open spec fn answered<L>(r: Result<L, SockError>) -> Option<L> {
    match r {
        Ok(l) => Some(l),
        Err(_) => None,
    }
}

/// A server's transport: its host and port, and the listener it keeps once bound.
#[derive(Debug)]
pub struct TcpTransport<L> {
    host: String,
    port: i32,
    listener: Option<L>,
}

impl<L> TcpTransport<L> {
    /// The host the transport listens on.
    pub closed spec fn spec_host(&self) -> Seq<char> {
        self.host@
    }

    /// The port the transport listens on.
    pub closed spec fn spec_port(&self) -> i32 {
        self.port
    }

    /// The listener the transport keeps, if any.
    pub closed spec fn kept(&self) -> Option<L> {
        self.listener
    }

    /// A transport for `host:port` that has not listened yet.
    pub fn new(host: String, port: i32) -> (t: Self)
        ensures
            t.spec_host() == host@,
            t.spec_port() == port,
            t.kept() is None,
    {
        TcpTransport { host, port, listener: None }
    }

    /// The host the transport listens on.
    pub fn host(&self) -> (h: &String)
        ensures
            h@ == self.spec_host(),
    {
        &self.host
    }

    /// The port the transport listens on.
    pub fn port(&self) -> (p: i32)
        ensures
            p == self.spec_port(),
    {
        self.port
    }

    /// Answers a listener for `host:port`. A listener kept from before is handed out
    /// (and no longer kept). Otherwise `bind` is called once with the address
    /// `host:port`; where it gives a listener and a handle on it, the handle is kept
    /// and the listener answered, and where it fails, the answer is the error
    /// `"error occured"`.
    pub fn listen<E, B>(&mut self, bind: B) -> (r: Result<L, SockError>) where
        B: FnOnce(String) -> Result<(L, L), E>,

        requires
            forall|addr: String| call_requires(bind, (addr,)),
        ensures
            final(self).spec_host() == old(self).spec_host(),
            final(self).spec_port() == old(self).spec_port(),
            match old(self).kept() {
                Some(l) => r == Ok::<L, SockError>(l) && final(self).kept() is None,
                None => exists|addr: String, bound: Result<(L, L), E>|
                    #![trigger call_ensures(bind, (addr,), bound)]
                    {
                        &&& addr@ == socket_address(old(self).spec_host(), old(self).spec_port() as int)
                        &&& call_ensures(bind, (addr,), bound)
                        &&& final(self).kept() == kept_after(old(self).kept(), bound)
                        &&& answered(r) == listen_answer(old(self).kept(), bound)
                    },
            },
            r is Err ==> r->Err_0.msg@ == "error occured"@,
    {
        match self.listener.take() {
            Some(ln) => Ok(ln),
            None => {
                let addr = bind_address(&self.host, self.port);
                let bound = bind(addr);
                match bound {
                    Ok((ln, handle)) => {
                        self.listener = Some(handle);
                        Ok(ln)
                    },
                    Err(_) => Err(SockError { msg: "error occured".to_owned() }),
                }
            },
        }
    }
}

/// The address is the host, a colon, and text that reads back as the port, whatever
/// the host and the port.
pub proof fn law_address_is_host_colon_port(host: Seq<char>, port: int)
    ensures
        exists|digits: Seq<char>|
            #[trigger] reads_as_number(digits, port) && socket_address(host, port) == host
                + seq![':'] + digits,
{
    law_decimal_reads_back(port);
    assert(reads_as_number(decimal(port), port));
}

/// `listen` keeps a listener exactly when it kept none before and binding worked;
/// after a successful bind the next `listen` hands out the kept handle and binds
/// nothing, and the `listen` after that binds again.
pub proof fn law_listen_keeps_one_bound_listener<L, E>(
    kept: Option<L>,
    bound: Result<(L, L), E>,
    next_bound: Result<(L, L), E>,
)
    ensures
        kept_after(kept, bound) is Some <==> (kept is None && listen_answer(kept, bound) is Some),
        kept is None && bound is Ok ==> {
            let after = kept_after(kept, bound);
            &&& listen_answer(after, next_bound) == after
            &&& kept_after(after, next_bound) is None
        },
{
}

} // verus!
