//! The request log: one line when a response starts, one when its body is finished.
use std::sync::Arc;
use std::sync::atomic::{AtomicU64, Ordering};

use vstd::prelude::*;

use super::text::{
    append_decimal, append_padded, decimal, padded, parse_u64, spells_u64, unsigned_part, value,
};

verus! {

/// The label under which requests are counted.
#[derive(Clone, Copy, PartialEq, Eq, Structural, Debug)]
pub enum MethodLabel {
    /// A `GET` request.
    Get,
    /// A `HEAD` request.
    Head,
    /// Any other request.
    Other,
}

/// What the log needs of a request.
pub struct RequestHead {
    /// The method, such as `GET`.
    pub method: String,
    /// The path of the URI.
    pub path: String,
    /// The query of the URI, if it has one.
    pub query: Option<String>,
    /// The protocol version, such as `HTTP/1.1`.
    pub version: String,
    /// The address of the client, where it is known.
    pub client: Option<String>,
}

impl RequestHead {
    /// The label of the request.
    pub open spec fn label(&self) -> MethodLabel {
        if self.method@ == "GET"@ {
            MethodLabel::Get
        } else if self.method@ == "HEAD"@ {
            MethodLabel::Head
        } else {
            MethodLabel::Other
        }
    }

    /// The request line: method, path with query, and version.
    pub open spec fn line(&self) -> Seq<char> {
        self.method@ + " "@ + self.path@ + match self.query {
            Some(query) => "?"@ + query@,
            None => Seq::empty(),
        } + " "@ + self.version@
    }

    /// The client's address, or a dash where it is not known.
    pub open spec fn shown_client(&self) -> Seq<char> {
        match self.client {
            Some(client) => client@,
            None => "-"@,
        }
    }

    /// The label of the request.
    pub fn method_label(&self) -> (r: MethodLabel)
        ensures
            r == self.label(),
    {
        if self.method == "GET".to_owned() {
            MethodLabel::Get
        } else if self.method == "HEAD".to_owned() {
            MethodLabel::Head
        } else {
            MethodLabel::Other
        }
    }

    /// The request line.
    pub fn request_line(&self) -> (r: String)
        ensures
            r@ == self.line(),
    {
        let mut line = self.method.clone();
        line.append(" ");
        line.append(self.path.as_str());
        if let Some(query) = &self.query {
            line.append("?");
            line.append(query.as_str());
        }
        line.append(" ");
        line.append(self.version.as_str());
        assert(line@ =~= self.line());
        line
    }
}

/// The size that a `Content-Length` header announces for the body of a response. The
/// response to a `HEAD` request has no body; a header that is missing or no number counts
/// as 0.
pub open spec fn announced_size(is_head: bool, content_length: Option<Seq<u8>>) -> int {
    match content_length {
        Some(bytes) => if !is_head && spells_u64(bytes) {
            value(unsigned_part(bytes))
        } else {
            0
        },
        None => 0,
    }
}

/// The size that a `Content-Length` header announces for the body of a response.
pub fn logged_size(is_head: bool, content_length: Option<&[u8]>) -> (r: u64)
    ensures
        r == announced_size(
            is_head,
            match content_length {
                Some(bytes) => Some(bytes@),
                None => None,
            },
        ),
{
    match content_length {
        Some(bytes) if !is_head => match parse_u64(bytes) {
            Some(n) => n,
            None => 0,
        },
        _ => 0,
    }
}

/// The part that both lines of a request begin with: its number, the client, the status
/// code and a number of bytes.
pub open spec fn prefix(count: u64, ip: Seq<char>, code: u16, size: u64) -> Seq<char> {
    "{"@ + decimal(count as nat) + "/"@ + padded(ip + "}"@, 16) + " Code="@ + decimal(code as nat)
        + " Byte="@ + padded(decimal(size as nat), 8) + " "@
}

fn prefix_text(count: u64, ip: &str, code: u16, size: u64) -> (r: String)
    ensures
        r@ == prefix(count, ip@, code, size),
{
    let mut line = "{".to_owned();
    append_decimal(&mut line, count as u128);
    line.append("/");
    let mut client = ip.to_owned();
    client.append("}");
    append_padded(&mut line, client.as_str(), 16);
    line.append(" Code=");
    append_decimal(&mut line, code as u128);
    line.append(" Byte=");
    let mut bytes = String::new();
    append_decimal(&mut bytes, size as u128);
    assert(bytes@ =~= decimal(size as nat));
    append_padded(&mut line, bytes.as_str(), 8);
    line.append(" ");
    assert(line@ =~= prefix(count, ip@, code, size));
    line
}

/// Numbers the requests and passes them on to a service.
pub struct Logger<M> {
    metrics: Arc<M>,
    seq: Arc<AtomicU64>,
}

impl<M> Logger<M> {
    /// Where requests are counted.
    pub closed spec fn metrics(&self) -> Arc<M> {
        self.metrics
    }

    /// The counter that numbers the requests.
    pub closed spec fn counter(&self) -> Arc<AtomicU64> {
        self.seq
    }

    /// A logger that counts requests in `metrics` and numbers them from 1.
    pub fn new(metrics: Arc<M>) -> (r: Self)
        ensures
            r.metrics() == metrics,
            AtomicU64::new.ensures((0u64,), *r.counter()),
    {
        Logger { metrics, seq: Arc::new(AtomicU64::new(0)) }
    }

    /// The middleware around `inner`. All of a logger's middleware share its counter.
    pub fn layer<S>(&self, inner: S) -> (r: LoggerMiddleware<M, S>)
        ensures
            r.metrics() == self.metrics(),
            r.counter() == self.counter(),
            r.inner() == inner,
    {
        LoggerMiddleware { metrics: self.metrics.clone(), seq: self.seq.clone(), service: inner }
    }
}

impl<M> Clone for Logger<M> {
    fn clone(&self) -> (r: Self)
        ensures
            r == *self,
    {
        Logger { metrics: self.metrics.clone(), seq: self.seq.clone() }
    }
}

/// A service whose requests are logged.
pub struct LoggerMiddleware<M, S> {
    metrics: Arc<M>,
    seq: Arc<AtomicU64>,
    /// The service that answers the requests.
    pub service: S,
}

impl<M, S: Clone> Clone for LoggerMiddleware<M, S> {
    fn clone(&self) -> (r: Self)
        ensures
            r.metrics() == self.metrics(),
            r.counter() == self.counter(),
            cloned(self.inner(), r.inner()),
    {
        LoggerMiddleware {
            metrics: self.metrics.clone(),
            seq: self.seq.clone(),
            service: self.service.clone(),
        }
    }
}

impl<M, S> LoggerMiddleware<M, S> {
    /// The service that answers the requests.
    pub closed spec fn inner(&self) -> S {
        self.service
    }

    /// Where requests are counted.
    pub closed spec fn metrics(&self) -> Arc<M> {
        self.metrics
    }

    /// The counter that numbers the requests.
    pub closed spec fn counter(&self) -> Arc<AtomicU64> {
        self.seq
    }

    /// A handle of the place where requests are counted.
    pub fn share_metrics(&self) -> (r: Arc<M>)
        ensures
            r == self.metrics(),
    {
        self.metrics.clone()
    }

    /// Opens the log of a request.
    ///
    /// Which number the request gets depends on who else opens one: the counter says how
    /// many came before.
    pub fn begin(&self, head: &RequestHead) -> (r: RequestLog)
        ensures
            exists|before: u64| #[trigger]
                r.opens(before, head) && AtomicU64::fetch_add.ensures(
                    (&*self.counter(), 1u64, Ordering::Relaxed),
                    before,
                ),
    {
        let before = self.seq.fetch_add(1, Ordering::Relaxed);
        RequestLog::open(before, head)
    }
}

/// A request that has been passed on.
pub struct RequestLog {
    /// The number of the request.
    pub count: u64,
    /// The address of the client.
    pub ip: String,
    /// The label of the request.
    pub method: MethodLabel,
    /// The request line.
    pub request: String,
}

impl RequestLog {
    /// Whether this is the log of a request that came after `before` others. The number
    /// starts again at 0 after the largest.
    pub open spec fn opens(&self, before: u64, head: &RequestHead) -> bool {
        &&& self.count == (before + 1) % 0x1_0000_0000_0000_0000
        &&& self.ip@ == head.shown_client()
        &&& self.method == head.label()
        &&& self.request@ == head.line()
    }

    /// The log of a request that came after `before` others.
    pub fn open(before: u64, head: &RequestHead) -> (r: Self)
        ensures
            r.opens(before, head),
    {
        let ip = match &head.client {
            Some(client) => client.clone(),
            None => "-".to_owned(),
        };
        RequestLog {
            count: before.wrapping_add(1),
            ip,
            method: head.method_label(),
            request: head.request_line(),
        }
    }

    /// Logs the start of a response: gives the line to log, and the log of its body.
    pub fn respond(self, code: u16, content_length: Option<&[u8]>) -> (r: (String, LoggerFinalizer))
        ensures
            r.0@ == prefix(
                self.count,
                self.ip@,
                code,
                announced_size(
                    self.method is Head,
                    match content_length {
                        Some(bytes) => Some(bytes@),
                        None => None,
                    },
                ) as u64,
            ) + self.request@,
            r.1.count == self.count,
            r.1.ip == self.ip,
            r.1.code == code,
            r.1.size == 0,
            r.1.is_get == (self.method is Get),
    {
        let is_head = matches!(self.method, MethodLabel::Head);
        let is_get = matches!(self.method, MethodLabel::Get);
        let size = logged_size(is_head, content_length);
        let mut line = prefix_text(self.count, self.ip.as_str(), code, size);
        line.append(self.request.as_str());
        (line, LoggerFinalizer { count: self.count, ip: self.ip, code, size: 0, is_get })
    }
}

/// Requests that draw 0, 1, 2 and so on from the counter are numbered 1, 2, 3 and so on, and
/// no two of them share a number.
pub proof fn law_requests_are_numbered_from_one(logs: Seq<RequestLog>, heads: Seq<RequestHead>)
    requires
        logs.len() == heads.len(),
        logs.len() <= u64::MAX,
        forall|i: int| 0 <= i < logs.len() ==> (#[trigger] logs[i]).opens(i as u64, &heads[i]),
    ensures
        forall|i: int| 0 <= i < logs.len() ==> (#[trigger] logs[i]).count == i + 1,
        forall|i: int, j: int|
            0 <= i < j < logs.len() ==> (#[trigger] logs[i]).count != (#[trigger] logs[j]).count,
{
}

/// Two requests of one counter, whatever their services: each is numbered one higher than
/// what the counter held when it was drawn from, so requests with different draws have
/// different numbers, and the later draw has the higher number.
pub proof fn law_numbers_follow_the_counter<M, S, T>(
    a: LoggerMiddleware<M, S>,
    first: RequestHead,
    one: RequestLog,
    b: LoggerMiddleware<M, T>,
    second: RequestHead,
    other: RequestLog,
)
    requires
        a.counter() == b.counter(),
        LoggerMiddleware::<M, S>::begin.ensures((&a, &first), one),
        LoggerMiddleware::<M, T>::begin.ensures((&b, &second), other),
    ensures
        exists|m: u64, n: u64|
            {
                &&& #[trigger] AtomicU64::fetch_add.ensures(
                    (&*a.counter(), 1u64, Ordering::Relaxed),
                    m,
                )
                &&& #[trigger] AtomicU64::fetch_add.ensures(
                    (&*a.counter(), 1u64, Ordering::Relaxed),
                    n,
                )
                &&& m < u64::MAX ==> one.count == m + 1
                &&& n < u64::MAX ==> other.count == n + 1
                &&& m != n ==> one.count != other.count
                &&& m < n < u64::MAX ==> one.count < other.count
            },
{
    let m = choose|m: u64| #[trigger]
        one.opens(m, &first) && AtomicU64::fetch_add.ensures(
            (&*a.counter(), 1u64, Ordering::Relaxed),
            m,
        );
    let n = choose|n: u64| #[trigger]
        other.opens(n, &second) && AtomicU64::fetch_add.ensures(
            (&*b.counter(), 1u64, Ordering::Relaxed),
            n,
        );
    assert(AtomicU64::fetch_add.ensures((&*a.counter(), 1u64, Ordering::Relaxed), m));
    assert(AtomicU64::fetch_add.ensures((&*a.counter(), 1u64, Ordering::Relaxed), n));
}

/// The number of a request stands at the head of both of its lines.
pub proof fn law_both_lines_carry_the_number(
    log: RequestLog,
    code: u16,
    content_length: Option<&[u8]>,
    started: (String, LoggerFinalizer),
    done: LoggerFinalizer,
    millis: u128,
    rate: &str,
    finished: String,
)
    requires
        RequestLog::respond.ensures((log, code, content_length), started),
        done.count == started.1.count,
        LoggerFinalizer::finish.ensures((&done, millis, rate), finished),
    ensures
        ("{"@ + decimal(log.count as nat) + "/"@).is_prefix_of(started.0@),
        ("{"@ + decimal(log.count as nat) + "/"@).is_prefix_of(finished@),
{
    let head = "{"@ + decimal(log.count as nat) + "/"@;
    assert(started.0@.subrange(0, head.len() as int) =~= head);
    assert(finished@.subrange(0, head.len() as int) =~= head);
}

/// The log of a response body.
pub struct LoggerFinalizer {
    /// The number of the request.
    pub count: u64,
    /// The address of the client.
    pub ip: String,
    /// The status code of the response.
    pub code: u16,
    /// Bytes of the body so far.
    pub size: u64,
    /// Whether the request was a `GET` request.
    pub is_get: bool,
}

impl LoggerFinalizer {
    /// Records a frame of the body: `data` bytes, or none for a frame of trailers.
    pub fn record(&mut self, data: Option<usize>)
        requires
            data matches Some(len) ==> old(self).size + len <= u64::MAX,
        ensures
            *final(self) == (LoggerFinalizer {
                size: (old(self).size + match data {
                    Some(len) => len as int,
                    None => 0,
                }) as u64,
                ..*old(self)
            }),
    {
        if let Some(len) = data {
            self.size = self.size + len as u64;
        }
    }

    /// The time that the rate of a body is counted over: at least a millisecond.
    pub fn rate_millis(body_millis: u128) -> (r: u128)
        ensures
            r == if body_millis > 1 {
                body_millis
            } else {
                1
            },
    {
        if body_millis > 1 {
            body_millis
        } else {
            1
        }
    }

    /// The line to log when the body is finished, `millis` milliseconds after the request
    /// arrived. `rate` is the rate of the body in KB/s.
    pub fn finish(&self, millis: u128, rate: &str) -> (r: String)
        ensures
            r@ == prefix(self.count, self.ip@, self.code, self.size)
                + "Finished processing request in "@ + decimal(millis as nat) + "ms ("@ + rate@
                + " KB/s)"@,
    {
        let mut line = prefix_text(self.count, self.ip.as_str(), self.code, self.size);
        line.append("Finished processing request in ");
        append_decimal(&mut line, millis);
        line.append("ms (");
        line.append(rate);
        line.append(" KB/s)");
        line
    }

    /// The size to record among the response sizes: those of `GET` requests are.
    pub fn response_size(&self) -> (r: Option<u64>)
        ensures
            r == if self.is_get {
                Some(self.size)
            } else {
                None
            },
    {
        if self.is_get {
            Some(self.size)
        } else {
            None
        }
    }
}

} // verus!
