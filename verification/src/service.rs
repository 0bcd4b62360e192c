//! Services: finding one by name, and naming one by handle.

use vstd::prelude::*;
use vstd::utf8::{
    decode_utf8, decode_utf8_encode_utf8, encode_utf8, encode_utf8_decode_utf8,
    encode_utf8_valid_utf8, valid_utf8,
};

use crate::command::check_result;
use crate::Handle;

verus! {

/// The number of bytes in which the kernel gives the name of a service.
pub const SERVICE_NAME_BYTES: usize = 12;

/// The error of `core::str::from_utf8`.
#[verifier::external_type_specification]
#[verifier::external_body]
pub struct ExUtf8Error(core::str::Utf8Error);

/// `core::str::from_utf8`: bytes are a string exactly when they are valid UTF-8, and then they
/// are the bytes of that string.
pub assume_specification[ core::str::from_utf8 ](v: &[u8]) -> (res: Result<
    &str,
    core::str::Utf8Error,
>)
    ensures
        res is Ok <==> valid_utf8(v@),
        res matches Ok(s) ==> encode_utf8(s@) == v@,
;

/// What to do next in order to look up a service by name.
#[derive(Debug, Clone, Copy, PartialEq, Eq, Structural)]
pub enum ServiceLookup {
    /// Open the connection to the service manager.
    Init,
    /// Ask the service manager for the handle.
    Query,
    /// Close the connection to the service manager; the handle is at hand.
    Exit(Handle),
    /// Nothing: the lookup gave this handle.
    Found(Handle),
    /// Nothing: the lookup failed with this result code.
    Failed(i32),
}

impl ServiceLookup {
    /// What comes after a step that gave the result `code`, and `handle` if it was the query.
    pub open spec fn after(self, code: i32, handle: Handle) -> ServiceLookup {
        match self {
            ServiceLookup::Init => if code < 0 {
                ServiceLookup::Failed(code)
            } else {
                ServiceLookup::Query
            },
            ServiceLookup::Query => if code < 0 {
                ServiceLookup::Failed(code)
            } else {
                ServiceLookup::Exit(handle)
            },
            ServiceLookup::Exit(found) => ServiceLookup::Found(found),
            ServiceLookup::Found(_) => self,
            ServiceLookup::Failed(_) => self,
        }
    }

    /// Goes on to the next step. `code` is the result of the step that was taken; `handle` is
    /// what the query gave, and of no matter after another step.
    pub fn next(self, code: i32, handle: Handle) -> (step: ServiceLookup)
        ensures
            step == self.after(code, handle),
    {
        match self {
            ServiceLookup::Init => match check_result(code) {
                Ok(()) => ServiceLookup::Query,
                Err(code) => ServiceLookup::Failed(code),
            },
            ServiceLookup::Query => match check_result(code) {
                Ok(()) => ServiceLookup::Exit(handle),
                Err(code) => ServiceLookup::Failed(code),
            },
            ServiceLookup::Exit(found) => ServiceLookup::Found(found),
            ServiceLookup::Found(found) => ServiceLookup::Found(found),
            ServiceLookup::Failed(code) => ServiceLookup::Failed(code),
        }
    }
}

/// The operations of the control call on services.
#[derive(Debug, Clone, Copy, PartialEq, Eq, Structural)]
pub enum ServiceOp {
    StealClientSession,
    GetName,
}

impl ServiceOp {
    /// The number of the operation.
    pub fn code(self) -> (code: i32)
        ensures
            code == match self {
                ServiceOp::StealClientSession => 0i32,
                ServiceOp::GetName => 1,
            },
    {
        match self {
            ServiceOp::StealClientSession => 0,
            ServiceOp::GetName => 1,
        }
    }
}

/// The handle that a control call with result `code` stored, unless it failed.
pub fn stolen_handle(code: i32, handle: Handle) -> (res: Result<Handle, i32>)
    ensures
        res == if code < 0 {
            Err::<Handle, i32>(code)
        } else {
            Ok(handle)
        },
{
    match check_result(code) {
        Ok(()) => Ok(handle),
        Err(code) => Err(code),
    }
}

/// Why there is no name for a service.
#[derive(Debug, Clone, Copy, PartialEq, Eq, Structural)]
pub enum ServiceNameError {
    /// The kernel refused the call with this result code.
    Refused(i32),
    /// No zero byte ends the name.
    Unterminated,
    /// The name is not valid UTF-8.
    NotUtf8,
}

/// The name that a control call with result `code` stored in `raw`: what stands before the first
/// zero byte, as text.
pub open spec fn stored_name(code: i32, raw: Seq<u8>) -> Result<Seq<char>, ServiceNameError> {
    if code < 0 {
        Err(ServiceNameError::Refused(code))
    } else {
        match raw.index_of_first(0) {
            None => Err(ServiceNameError::Unterminated),
            Some(n) => if valid_utf8(raw.take(n)) {
                Ok(decode_utf8(raw.take(n)))
            } else {
                Err(ServiceNameError::NotUtf8)
            },
        }
    }
}

/// The index of the first zero byte, or `None` if there is none.
fn first_zero(bytes: &[u8]) -> (n: Option<usize>)
    ensures
        match n {
            Some(n) => bytes@.index_of_first(0) == Some(n as int),
            None => bytes@.index_of_first(0) == None::<int>,
        },
{
    let mut i: usize = 0;
    proof {
        bytes@.index_of_first_ensures(0);
    }
    while i < bytes.len()
        invariant
            i <= bytes@.len(),
            forall|k: int| 0 <= k < i ==> bytes@[k] != 0,
        decreases bytes.len() - i,
    {
        if bytes[i] == 0 {
            proof {
                bytes@.index_of_first_ensures(0);
            }
            return Some(i);
        }
        i += 1;
    }
    None
}

/// The name as the kernel takes it, with a zero byte behind it; `None` if it holds a zero byte
/// itself.
pub fn service_name_bytes(name: &str) -> (bytes: Option<Vec<u8>>)
    ensures
        bytes is None <==> encode_utf8(name@).contains(0),
        bytes matches Some(b) ==> b@ == encode_utf8(name@).push(0),
{
    let raw: &[u8] = name.as_bytes();
    proof {
        raw@.index_of_first_ensures(0);
    }
    if first_zero(raw).is_some() {
        return None;
    }
    let mut bytes: Vec<u8> = Vec::new();
    bytes.extend_from_slice(raw);
    assert(bytes@ =~= raw@);
    bytes.push(0);
    Some(bytes)
}

/// The name that a control call with result `code` stored in `raw`.
pub fn service_name(code: i32, raw: &[u8; SERVICE_NAME_BYTES]) -> (name: Result<
    String,
    ServiceNameError,
>)
    ensures
        match name {
            Ok(s) => stored_name(code, raw@) == Ok::<_, ServiceNameError>(s@),
            Err(e) => stored_name(code, raw@) == Err::<Seq<char>, _>(e),
        },
        code < 0 ==> (name matches Err(ServiceNameError::Refused(c)) && c == code),
        code >= 0 ==> !(name matches Err(ServiceNameError::Refused(_))),
{
    if let Err(code) = check_result(code) {
        return Err(ServiceNameError::Refused(code));
    }
    match first_zero(raw.as_slice()) {
        None => Err(ServiceNameError::Unterminated),
        Some(n) => {
            proof {
                raw@.index_of_first_ensures(0);
            }
            let bytes: &[u8] = &raw.as_slice()[0..n];
            assert(bytes@ =~= raw@.take(n as int));
            match core::str::from_utf8(bytes) {
                Ok(s) => {
                    proof {
                        encode_utf8_decode_utf8(s@);
                    }
                    Ok(s.to_owned())
                },
                Err(_) => Err(ServiceNameError::NotUtf8),
            }
        },
    }
}

/// A name that was handed to the kernel is read back unchanged, wherever in `raw` the kernel's
/// own bytes follow it.
pub proof fn service_name_read_back(name: Seq<char>, raw: Seq<u8>, code: i32)
    requires
        !encode_utf8(name).contains(0),
        encode_utf8(name).push(0).is_prefix_of(raw),
        code >= 0,
    ensures
        stored_name(code, raw) == Ok::<_, ServiceNameError>(name),
{
    let bytes = encode_utf8(name);
    raw.index_of_first_ensures(0);
    assert forall|i: int| 0 <= i < bytes.len() implies raw[i] != 0 by {
        assert(raw[i] == bytes.push(0)[i]);
        assert(bytes.contains(bytes[i]));
    }
    assert(raw[bytes.len() as int] == bytes.push(0)[bytes.len() as int]);
    assert(raw.contains(0));
    assert(raw.index_of_first(0) == Some(bytes.len() as int));
    assert(raw.take(bytes.len() as int) =~= bytes);
    encode_utf8_valid_utf8(name);
    encode_utf8_decode_utf8(name);
}

/// A lookup whose steps all go through opens the connection, asks, closes the connection and
/// gives the handle that the query gave.
pub proof fn lookup_finds(opened: i32, queried: i32, closed: i32, ignored: Handle, handle: Handle)
    requires
        opened >= 0,
        queried >= 0,
    ensures
        ServiceLookup::Init.after(opened, ignored) == ServiceLookup::Query,
        ServiceLookup::Query.after(queried, handle) == ServiceLookup::Exit(handle),
        ServiceLookup::Exit(handle).after(closed, ignored) == ServiceLookup::Found(handle),
{
}

/// A lookup fails with the first negative result code of opening the connection or asking.
pub proof fn lookup_fails(opened: i32, queried: i32, ignored: Handle, handle: Handle)
    requires
        opened < 0 || queried < 0,
    ensures
        ServiceLookup::Init.after(opened, ignored).after(queried, handle) == ServiceLookup::Failed(
            if opened < 0 {
                opened
            } else {
                queried
            },
        ),
{
}

/// A refused call gives its result code and no name, whatever the kernel stored.
pub proof fn refused_call_has_no_name(code: i32, raw: Seq<u8>)
    requires
        code < 0,
    ensures
        stored_name(code, raw) == Err::<Seq<char>, _>(ServiceNameError::Refused(code)),
{
}

/// The name of a call that went through is the text whose bytes stand in front of the first zero
/// byte. There is none exactly when no byte is zero or when those bytes are no text.
pub proof fn name_ends_at_first_zero(code: i32, raw: Seq<u8>)
    requires
        code >= 0,
    ensures
        match stored_name(code, raw) {
            Ok(name) => {
                let n = encode_utf8(name).len() as int;
                &&& n < raw.len()
                &&& raw[n] == 0
                &&& raw.take(n) == encode_utf8(name)
                &&& forall|i: int| 0 <= i < n ==> #[trigger] raw[i] != 0
            },
            Err(ServiceNameError::Unterminated) => forall|i: int|
                0 <= i < raw.len() ==> #[trigger] raw[i] != 0,
            Err(ServiceNameError::NotUtf8) => exists|n: int|
                0 <= n < raw.len() && raw[n] == 0 && !valid_utf8(#[trigger] raw.take(n)) && (
                forall|i: int| 0 <= i < n ==> #[trigger] raw[i] != 0),
            Err(ServiceNameError::Refused(_)) => false,
        },
{
    raw.index_of_first_ensures(0);
    match raw.index_of_first(0) {
        Some(n) => {
            let bytes = raw.take(n);
            assert(0 <= n < raw.len() && raw[n] == 0);
            if valid_utf8(bytes) {
                decode_utf8_encode_utf8(bytes);
            }
        },
        None => {
            assert forall|i: int| 0 <= i < raw.len() implies #[trigger] raw[i] != 0 by {
                assert(raw.contains(raw[i]));
            }
        },
    }
}

/// What comes after each step: opening and asking fail with a negative result code and with no
/// other, asking gives the handle, closing cannot fail, and what is over stays as it is.
pub proof fn lookup_steps(step: ServiceLookup, code: i32, handle: Handle)
    ensures
        match step.after(code, handle) {
            ServiceLookup::Init => false,
            ServiceLookup::Query => step is Init && code >= 0,
            ServiceLookup::Exit(h) => step is Query && code >= 0 && h == handle,
            ServiceLookup::Found(h) => {
                ||| step matches ServiceLookup::Exit(g) && g == h
                ||| step matches ServiceLookup::Found(g) && g == h
            },
            ServiceLookup::Failed(c) => {
                ||| (step is Init || step is Query) && code < 0 && c == code
                ||| step matches ServiceLookup::Failed(d) && d == c
            },
        },
{
}

} // verus!
