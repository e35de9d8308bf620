//! Counters of the server, and their text form.
use vstd::prelude::*;
use vstd::string::StringExecFns;

use crate::text::decimal;
use crate::text::law_numerals_stand_for_their_numbers;
use crate::text::numeral_value;
use crate::text::push_decimal;

verus! {

/// The counters. Each wraps around at the end of its range.
#[derive(Clone, Copy, Debug)]
pub struct Metrics {
    /// Connections that are open.
    pub active_connections: u64,
    /// Connections accepted so far.
    pub accepted_connections: u64,
    /// Connections refused so far, for whatever reason.
    pub rejected_connections: u64,
    /// Messages received from clients.
    pub messages_in: u64,
    /// Messages written to clients.
    pub messages_out: u64,
    /// Messages that reached nobody.
    pub dropped_messages: u64,
    /// Messages that broke the protocol.
    pub protocol_errors: u64,
    /// Connections refused on account of their address.
    pub ip_rejections: u64,
    /// Connections refused for want of a valid token.
    pub auth_rejections: u64,
    /// Connections refused because their tenant's connections were used up.
    pub tenant_rejections: u64,
    /// Messages discarded because their tenant's rate was used up.
    pub tenant_rate_rejections: u64,
}

impl Default for Metrics {
    /// All counters at zero.
    fn default() -> (r: Metrics)
        ensures
            r == Metrics::zero(),
    {
        Metrics {
            active_connections: 0,
            accepted_connections: 0,
            rejected_connections: 0,
            messages_in: 0,
            messages_out: 0,
            dropped_messages: 0,
            protocol_errors: 0,
            ip_rejections: 0,
            auth_rejections: 0,
            tenant_rejections: 0,
            tenant_rate_rejections: 0,
        }
    }
}

impl Metrics {
    /// All counters at zero.
    pub open spec fn zero() -> Metrics {
        Metrics {
            active_connections: 0,
            accepted_connections: 0,
            rejected_connections: 0,
            messages_in: 0,
            messages_out: 0,
            dropped_messages: 0,
            protocol_errors: 0,
            ip_rejections: 0,
            auth_rejections: 0,
            tenant_rejections: 0,
            tenant_rate_rejections: 0,
        }
    }

    /// One connection more, accepted and open.
    pub open spec fn after_accept(self) -> Metrics {
        Metrics {
            accepted_connections: self.accepted_connections.wrapping_add(1),
            active_connections: self.active_connections.wrapping_add(1),
            ..self
        }
    }

    /// `n` messages more written.
    pub open spec fn after_messages_out(self, n: nat) -> Metrics
        decreases n,
    {
        if n == 0 {
            self
        } else {
            self.after_messages_out((n - 1) as nat).after_message_out()
        }
    }

    /// The counters where `active_connections` has gone down by one.
    pub open spec fn after_close(self) -> Metrics {
        Metrics { active_connections: self.active_connections.wrapping_sub(1), ..self }
    }

    /// The counters where `rejected_connections` has gone up by one.
    pub open spec fn after_rejection(self) -> Metrics {
        Metrics { rejected_connections: self.rejected_connections.wrapping_add(1), ..self }
    }

    /// The counters where `messages_in` has gone up by one.
    pub open spec fn after_message_in(self) -> Metrics {
        Metrics { messages_in: self.messages_in.wrapping_add(1), ..self }
    }

    /// The counters where `messages_out` has gone up by one.
    pub open spec fn after_message_out(self) -> Metrics {
        Metrics { messages_out: self.messages_out.wrapping_add(1), ..self }
    }

    /// The counters where `dropped_messages` has gone up by one.
    pub open spec fn after_drop(self) -> Metrics {
        Metrics { dropped_messages: self.dropped_messages.wrapping_add(1), ..self }
    }

    /// The counters where `protocol_errors` has gone up by one.
    pub open spec fn after_protocol_error(self) -> Metrics {
        Metrics { protocol_errors: self.protocol_errors.wrapping_add(1), ..self }
    }

    /// The counters where `ip_rejections` has gone up by one.
    pub open spec fn after_ip_rejection(self) -> Metrics {
        Metrics { ip_rejections: self.ip_rejections.wrapping_add(1), ..self }
    }

    /// The counters where `auth_rejections` has gone up by one.
    pub open spec fn after_auth_rejection(self) -> Metrics {
        Metrics { auth_rejections: self.auth_rejections.wrapping_add(1), ..self }
    }

    /// The counters where `tenant_rejections` has gone up by one.
    pub open spec fn after_tenant_rejection(self) -> Metrics {
        Metrics { tenant_rejections: self.tenant_rejections.wrapping_add(1), ..self }
    }

    /// The counters where `tenant_rate_rejections` has gone up by one.
    pub open spec fn after_tenant_rate_rejection(self) -> Metrics {
        Metrics { tenant_rate_rejections: self.tenant_rate_rejections.wrapping_add(1), ..self }
    }

    /// Counts a connection that was accepted.
    pub fn connection_accepted(&mut self)
        ensures
            *final(self) == old(self).after_accept(),
    {
        self.accepted_connections = self.accepted_connections.wrapping_add(1);
        self.active_connections = self.active_connections.wrapping_add(1);
    }

    /// Counts a connection that ended.
    pub fn connection_closed(&mut self)
        ensures
            *final(self) == old(self).after_close(),
    {
        self.active_connections = self.active_connections.wrapping_sub(1);
    }

    /// Counts a connection that was refused.
    pub fn connection_rejected(&mut self)
        ensures
            *final(self) == old(self).after_rejection(),
    {
        self.rejected_connections = self.rejected_connections.wrapping_add(1);
    }

    /// Counts a message received.
    pub fn message_in(&mut self)
        ensures
            *final(self) == old(self).after_message_in(),
    {
        self.messages_in = self.messages_in.wrapping_add(1);
    }

    /// Counts a message written.
    pub fn message_out(&mut self)
        ensures
            *final(self) == old(self).after_message_out(),
    {
        self.messages_out = self.messages_out.wrapping_add(1);
    }

    /// Counts a message that reached nobody.
    pub fn message_dropped(&mut self)
        ensures
            *final(self) == old(self).after_drop(),
    {
        self.dropped_messages = self.dropped_messages.wrapping_add(1);
    }

    /// Counts a message that broke the protocol.
    pub fn protocol_error(&mut self)
        ensures
            *final(self) == old(self).after_protocol_error(),
    {
        self.protocol_errors = self.protocol_errors.wrapping_add(1);
    }

    /// Counts a connection refused on account of its address.
    pub fn ip_rejected(&mut self)
        ensures
            *final(self) == old(self).after_ip_rejection(),
    {
        self.ip_rejections = self.ip_rejections.wrapping_add(1);
    }

    /// Counts a connection refused for want of a valid token.
    pub fn auth_rejected(&mut self)
        ensures
            *final(self) == old(self).after_auth_rejection(),
    {
        self.auth_rejections = self.auth_rejections.wrapping_add(1);
    }

    /// Counts a connection refused because its tenant had no connection left.
    pub fn tenant_rejected(&mut self)
        ensures
            *final(self) == old(self).after_tenant_rejection(),
    {
        self.tenant_rejections = self.tenant_rejections.wrapping_add(1);
    }

    /// Counts a message discarded because its tenant sent too much.
    pub fn tenant_rate_rejected(&mut self)
        ensures
            *final(self) == old(self).after_tenant_rate_rejection(),
    {
        self.tenant_rate_rejections = self.tenant_rate_rejections.wrapping_add(1);
    }

    /// The counters in the text format that Prometheus scrapes.
    pub open spec fn prometheus_text(self) -> Seq<char> {
        Seq::<char>::empty()
            + sample(
            "# HELP ws_active_connections Active websocket connections.\n# TYPE ws_active_connections gauge\nws_active_connections "@,
            self.active_connections,
        )
            + sample(
            "# HELP ws_accepted_connections_total Accepted websocket connections.\n# TYPE ws_accepted_connections_total counter\nws_accepted_connections_total "@,
            self.accepted_connections,
        )
            + sample(
            "# HELP ws_rejected_connections_total Rejected websocket connections.\n# TYPE ws_rejected_connections_total counter\nws_rejected_connections_total "@,
            self.rejected_connections,
        )
            + sample(
            "# HELP ws_messages_in_total Inbound websocket messages.\n# TYPE ws_messages_in_total counter\nws_messages_in_total "@,
            self.messages_in,
        )
            + sample(
            "# HELP ws_messages_out_total Outbound websocket messages.\n# TYPE ws_messages_out_total counter\nws_messages_out_total "@,
            self.messages_out,
        )
            + sample(
            "# HELP ws_dropped_messages_total Dropped websocket messages.\n# TYPE ws_dropped_messages_total counter\nws_dropped_messages_total "@,
            self.dropped_messages,
        )
            + sample(
            "# HELP ws_protocol_errors_total Invalid websocket protocol messages.\n# TYPE ws_protocol_errors_total counter\nws_protocol_errors_total "@,
            self.protocol_errors,
        )
            + sample(
            "# HELP ws_ip_rejections_total IP-rejected websocket connections.\n# TYPE ws_ip_rejections_total counter\nws_ip_rejections_total "@,
            self.ip_rejections,
        )
            + sample(
            "# HELP ws_auth_rejections_total Auth-rejected websocket connections.\n# TYPE ws_auth_rejections_total counter\nws_auth_rejections_total "@,
            self.auth_rejections,
        )
            + sample(
            "# HELP ws_tenant_rejections_total Tenant-rejected websocket connections.\n# TYPE ws_tenant_rejections_total counter\nws_tenant_rejections_total "@,
            self.tenant_rejections,
        )
            + sample(
            "# HELP ws_tenant_rate_rejections_total Tenant-rate-rejected websocket messages.\n# TYPE ws_tenant_rate_rejections_total counter\nws_tenant_rate_rejections_total "@,
            self.tenant_rate_rejections,
        )
    }

    /// Renders the counters for Prometheus.
    pub fn render_prometheus(&self) -> (r: String)
        ensures
            r@ == self.prometheus_text(),
    {
        let mut out = String::new();
        push_sample(
            &mut out,
            "# HELP ws_active_connections Active websocket connections.\n# TYPE ws_active_connections gauge\nws_active_connections ",
            self.active_connections,
        );
        push_sample(
            &mut out,
            "# HELP ws_accepted_connections_total Accepted websocket connections.\n# TYPE ws_accepted_connections_total counter\nws_accepted_connections_total ",
            self.accepted_connections,
        );
        push_sample(
            &mut out,
            "# HELP ws_rejected_connections_total Rejected websocket connections.\n# TYPE ws_rejected_connections_total counter\nws_rejected_connections_total ",
            self.rejected_connections,
        );
        push_sample(
            &mut out,
            "# HELP ws_messages_in_total Inbound websocket messages.\n# TYPE ws_messages_in_total counter\nws_messages_in_total ",
            self.messages_in,
        );
        push_sample(
            &mut out,
            "# HELP ws_messages_out_total Outbound websocket messages.\n# TYPE ws_messages_out_total counter\nws_messages_out_total ",
            self.messages_out,
        );
        push_sample(
            &mut out,
            "# HELP ws_dropped_messages_total Dropped websocket messages.\n# TYPE ws_dropped_messages_total counter\nws_dropped_messages_total ",
            self.dropped_messages,
        );
        push_sample(
            &mut out,
            "# HELP ws_protocol_errors_total Invalid websocket protocol messages.\n# TYPE ws_protocol_errors_total counter\nws_protocol_errors_total ",
            self.protocol_errors,
        );
        push_sample(
            &mut out,
            "# HELP ws_ip_rejections_total IP-rejected websocket connections.\n# TYPE ws_ip_rejections_total counter\nws_ip_rejections_total ",
            self.ip_rejections,
        );
        push_sample(
            &mut out,
            "# HELP ws_auth_rejections_total Auth-rejected websocket connections.\n# TYPE ws_auth_rejections_total counter\nws_auth_rejections_total ",
            self.auth_rejections,
        );
        push_sample(
            &mut out,
            "# HELP ws_tenant_rejections_total Tenant-rejected websocket connections.\n# TYPE ws_tenant_rejections_total counter\nws_tenant_rejections_total ",
            self.tenant_rejections,
        );
        push_sample(
            &mut out,
            "# HELP ws_tenant_rate_rejections_total Tenant-rate-rejected websocket messages.\n# TYPE ws_tenant_rate_rejections_total counter\nws_tenant_rate_rejections_total ",
            self.tenant_rate_rejections,
        );
        out
    }
}

/// One sample: its heading, its value, and the end of the line.
pub open spec fn sample(heading: Seq<char>, value: u64) -> Seq<char> {
    heading + crate::text::decimal(value as nat) + "\n"@
}

fn push_sample(out: &mut String, heading: &str, value: u64)
    ensures
        final(out)@ == old(out)@ + sample(heading@, value),
{
    out.append(heading);
    push_decimal(out, value);
    out.append("\n");
    assert(out@ =~= old(out)@ + sample(heading@, value));
}

/// A connection that was accepted and has ended leaves the number of open connections as it
/// was.
pub proof fn law_close_undoes_accept(m: Metrics)
    ensures
        m.after_accept().after_close().active_connections == m.active_connections,
        m.after_accept().after_close().accepted_connections
            == m.accepted_connections.wrapping_add(1),
{
}

/// Something that happens to a connection or a message and is counted.
pub enum Counted {
    Accepted,
    Closed,
    Rejected,
    MessageIn,
    MessageOut,
    Dropped,
    ProtocolError,
    IpRejected,
    AuthRejected,
    TenantRejected,
    TenantRateRejected,
}

impl Metrics {
    /// The counters after one thing more has happened.
    pub open spec fn after_one(self, what: Counted) -> Metrics {
        match what {
            Counted::Accepted => self.after_accept(),
            Counted::Closed => self.after_close(),
            Counted::Rejected => self.after_rejection(),
            Counted::MessageIn => self.after_message_in(),
            Counted::MessageOut => self.after_message_out(),
            Counted::Dropped => self.after_drop(),
            Counted::ProtocolError => self.after_protocol_error(),
            Counted::IpRejected => self.after_ip_rejection(),
            Counted::AuthRejected => self.after_auth_rejection(),
            Counted::TenantRejected => self.after_tenant_rejection(),
            Counted::TenantRateRejected => self.after_tenant_rate_rejection(),
        }
    }

    /// The counters of a server to which these things have happened, in this order.
    pub open spec fn after_all(happened: Seq<Counted>) -> Metrics
        decreases happened.len(),
    {
        if happened.len() == 0 {
            Metrics::zero()
        } else {
            Metrics::after_all(happened.drop_last()).after_one(happened.last())
        }
    }
}

/// How often a thing is among those that happened.
pub open spec fn times(happened: Seq<Counted>, what: Counted) -> nat
    decreases happened.len(),
{
    if happened.len() == 0 {
        0
    } else if happened.last() == what {
        times(happened.drop_last(), what) + 1
    } else {
        times(happened.drop_last(), what)
    }
}

/// What a counter shows of a number: it wraps around at the end of its range.
pub open spec fn shown(n: int) -> u64 {
    (n % 0x1_0000_0000_0000_0000) as u64
}

/// What the counters show of things that happened so often.
pub open spec fn tally(happened: Seq<Counted>) -> Metrics {
    Metrics {
        active_connections: shown(
            times(happened, Counted::Accepted) - times(happened, Counted::Closed),
        ),
        accepted_connections: shown(times(happened, Counted::Accepted) as int),
        rejected_connections: shown(times(happened, Counted::Rejected) as int),
        messages_in: shown(times(happened, Counted::MessageIn) as int),
        messages_out: shown(times(happened, Counted::MessageOut) as int),
        dropped_messages: shown(times(happened, Counted::Dropped) as int),
        protocol_errors: shown(times(happened, Counted::ProtocolError) as int),
        ip_rejections: shown(times(happened, Counted::IpRejected) as int),
        auth_rejections: shown(times(happened, Counted::AuthRejected) as int),
        tenant_rejections: shown(times(happened, Counted::TenantRejected) as int),
        tenant_rate_rejections: shown(times(happened, Counted::TenantRateRejected) as int),
    }
}

proof fn lemma_shown_steps(n: int)
    ensures
        shown(n + 1) == shown(n).wrapping_add(1),
        shown(n - 1) == shown(n).wrapping_sub(1),
{
}

proof fn lemma_tally_grows(happened: Seq<Counted>)
    requires
        happened.len() > 0,
    ensures
        tally(happened) == tally(happened.drop_last()).after_one(happened.last()),
{
    let before = happened.drop_last();
    let n = times(before, happened.last()) as int;
    lemma_shown_steps(n);
    lemma_shown_steps(times(before, Counted::Accepted) - times(before, Counted::Closed));
    assert(times(happened, happened.last()) == n + 1);
}

/// Each counter shows how often its thing has happened, and the number of open connections is that
/// of those accepted less that of those closed. So these are the numbers in the text for
/// Prometheus.
pub proof fn law_counters_count(happened: Seq<Counted>)
    ensures
        Metrics::after_all(happened) == tally(happened),
        Metrics::after_all(happened).prometheus_text() == tally(happened).prometheus_text(),
    decreases happened.len(),
{
    if happened.len() > 0 {
        law_counters_count(happened.drop_last());
        lemma_tally_grows(happened);
    }
}

/// Counting `n` messages at once adds `n`, up to the wrap-around.
pub proof fn law_messages_out_add_up(m: Metrics, n: nat)
    ensures
        m.after_messages_out(n) == (Metrics {
            messages_out: ((m.messages_out + n) % 0x1_0000_0000_0000_0000) as u64,
            ..m
        }),
    decreases n,
{
    if n > 0 {
        law_messages_out_add_up(m, (n - 1) as nat);
    }
}

/// Each counter is the number of times that its thing has happened, and no other thing counts toward it,
/// up to the end of its range. The open connections are those accepted less those closed.
pub proof fn law_each_counter_counts_its_thing(happened: Seq<Counted>)
    ensures
        Metrics::after_all(happened).accepted_connections == (times(happened, Counted::Accepted)
            % 0x1_0000_0000_0000_0000),
        Metrics::after_all(happened).rejected_connections == (times(happened, Counted::Rejected)
            % 0x1_0000_0000_0000_0000),
        Metrics::after_all(happened).messages_in == (times(happened, Counted::MessageIn)
            % 0x1_0000_0000_0000_0000),
        Metrics::after_all(happened).messages_out == (times(happened, Counted::MessageOut)
            % 0x1_0000_0000_0000_0000),
        Metrics::after_all(happened).dropped_messages == (times(happened, Counted::Dropped)
            % 0x1_0000_0000_0000_0000),
        Metrics::after_all(happened).protocol_errors == (times(happened, Counted::ProtocolError)
            % 0x1_0000_0000_0000_0000),
        Metrics::after_all(happened).ip_rejections == (times(happened, Counted::IpRejected)
            % 0x1_0000_0000_0000_0000),
        Metrics::after_all(happened).auth_rejections == (times(happened, Counted::AuthRejected)
            % 0x1_0000_0000_0000_0000),
        Metrics::after_all(happened).tenant_rejections == (times(happened, Counted::TenantRejected)
            % 0x1_0000_0000_0000_0000),
        Metrics::after_all(happened).tenant_rate_rejections == (times(happened, Counted::TenantRateRejected)
            % 0x1_0000_0000_0000_0000),
        times(happened, Counted::Closed) <= times(happened, Counted::Accepted) < 0x1_0000_0000_0000_0000
            ==> Metrics::after_all(happened).active_connections == times(happened, Counted::Accepted)
            - times(happened, Counted::Closed),
{
    law_counters_count(happened);
}

/// A sample is its heading, the value in digits, and the end of the line.
pub proof fn law_samples_show_their_value(heading: Seq<char>, value: u64)
    ensures
        ({
            let line = sample(heading, value);
            let digits = line.subrange(heading.len() as int, line.len() - 1);
            &&& line.len() > heading.len() + 1
            &&& line.take(heading.len() as int) == heading
            &&& line.last() == '\n'
            &&& numeral_value(digits) == value
            &&& forall|i: int| 0 <= i < digits.len() ==> '0' <= #[trigger] digits[i] <= '9'
        }),
{
    reveal_strlit("\n");
    let line = sample(heading, value);
    let digits = line.subrange(heading.len() as int, line.len() - 1);
    law_numerals_stand_for_their_numbers(value as nat);
    assert(digits =~= decimal(value as nat));
    assert(line.take(heading.len() as int) =~= heading);
}

/// Whether a text has a line that begins so, goes on with the value in digits, and ends there.
pub open spec fn shows(text: Seq<char>, line: Seq<char>, value: u64) -> bool {
    exists|at: int|
        {
            &&& 0 <= at
            &&& at + (line + decimal(value as nat)).len() < text.len()
            &&& (#[trigger] text.subrange(at, at + (line + decimal(value as nat)).len())) == line
                + decimal(value as nat)
            &&& text[at + (line + decimal(value as nat)).len()] == '\n'
        }
}

/// The text for Prometheus shows every counter under its own name, on a line of its own.
pub proof fn law_every_counter_is_shown(metrics: Metrics)
    ensures
        shows(metrics.prometheus_text(), "\nws_active_connections "@, metrics.active_connections),
        shows(metrics.prometheus_text(), "\nws_accepted_connections_total "@, metrics.accepted_connections),
        shows(metrics.prometheus_text(), "\nws_rejected_connections_total "@, metrics.rejected_connections),
        shows(metrics.prometheus_text(), "\nws_messages_in_total "@, metrics.messages_in),
        shows(metrics.prometheus_text(), "\nws_messages_out_total "@, metrics.messages_out),
        shows(metrics.prometheus_text(), "\nws_dropped_messages_total "@, metrics.dropped_messages),
        shows(metrics.prometheus_text(), "\nws_protocol_errors_total "@, metrics.protocol_errors),
        shows(metrics.prometheus_text(), "\nws_ip_rejections_total "@, metrics.ip_rejections),
        shows(metrics.prometheus_text(), "\nws_auth_rejections_total "@, metrics.auth_rejections),
        shows(metrics.prometheus_text(), "\nws_tenant_rejections_total "@, metrics.tenant_rejections),
        shows(metrics.prometheus_text(), "\nws_tenant_rate_rejections_total "@, metrics.tenant_rate_rejections),
{
    let text = metrics.prometheus_text();
    let p0 = Seq::<char>::empty();
    let p1 = p0 + sample("# HELP ws_active_connections Active websocket connections.\n# TYPE ws_active_connections gauge\nws_active_connections "@, metrics.active_connections);
    let p2 = p1 + sample("# HELP ws_accepted_connections_total Accepted websocket connections.\n# TYPE ws_accepted_connections_total counter\nws_accepted_connections_total "@, metrics.accepted_connections);
    let p3 = p2 + sample("# HELP ws_rejected_connections_total Rejected websocket connections.\n# TYPE ws_rejected_connections_total counter\nws_rejected_connections_total "@, metrics.rejected_connections);
    let p4 = p3 + sample("# HELP ws_messages_in_total Inbound websocket messages.\n# TYPE ws_messages_in_total counter\nws_messages_in_total "@, metrics.messages_in);
    let p5 = p4 + sample("# HELP ws_messages_out_total Outbound websocket messages.\n# TYPE ws_messages_out_total counter\nws_messages_out_total "@, metrics.messages_out);
    let p6 = p5 + sample("# HELP ws_dropped_messages_total Dropped websocket messages.\n# TYPE ws_dropped_messages_total counter\nws_dropped_messages_total "@, metrics.dropped_messages);
    let p7 = p6 + sample("# HELP ws_protocol_errors_total Invalid websocket protocol messages.\n# TYPE ws_protocol_errors_total counter\nws_protocol_errors_total "@, metrics.protocol_errors);
    let p8 = p7 + sample("# HELP ws_ip_rejections_total IP-rejected websocket connections.\n# TYPE ws_ip_rejections_total counter\nws_ip_rejections_total "@, metrics.ip_rejections);
    let p9 = p8 + sample("# HELP ws_auth_rejections_total Auth-rejected websocket connections.\n# TYPE ws_auth_rejections_total counter\nws_auth_rejections_total "@, metrics.auth_rejections);
    let p10 = p9 + sample("# HELP ws_tenant_rejections_total Tenant-rejected websocket connections.\n# TYPE ws_tenant_rejections_total counter\nws_tenant_rejections_total "@, metrics.tenant_rejections);
    let p11 = p10 + sample("# HELP ws_tenant_rate_rejections_total Tenant-rate-rejected websocket messages.\n# TYPE ws_tenant_rate_rejections_total counter\nws_tenant_rate_rejections_total "@, metrics.tenant_rate_rejections);
    assert(text == p11);
    assert(p11.is_prefix_of(text));
    lemma_prefix_of_more(p10, sample("# HELP ws_tenant_rate_rejections_total Tenant-rate-rejected websocket messages.\n# TYPE ws_tenant_rate_rejections_total counter\nws_tenant_rate_rejections_total "@, metrics.tenant_rate_rejections), text);
    lemma_prefix_of_more(p9, sample("# HELP ws_tenant_rejections_total Tenant-rejected websocket connections.\n# TYPE ws_tenant_rejections_total counter\nws_tenant_rejections_total "@, metrics.tenant_rejections), text);
    lemma_prefix_of_more(p8, sample("# HELP ws_auth_rejections_total Auth-rejected websocket connections.\n# TYPE ws_auth_rejections_total counter\nws_auth_rejections_total "@, metrics.auth_rejections), text);
    lemma_prefix_of_more(p7, sample("# HELP ws_ip_rejections_total IP-rejected websocket connections.\n# TYPE ws_ip_rejections_total counter\nws_ip_rejections_total "@, metrics.ip_rejections), text);
    lemma_prefix_of_more(p6, sample("# HELP ws_protocol_errors_total Invalid websocket protocol messages.\n# TYPE ws_protocol_errors_total counter\nws_protocol_errors_total "@, metrics.protocol_errors), text);
    lemma_prefix_of_more(p5, sample("# HELP ws_dropped_messages_total Dropped websocket messages.\n# TYPE ws_dropped_messages_total counter\nws_dropped_messages_total "@, metrics.dropped_messages), text);
    lemma_prefix_of_more(p4, sample("# HELP ws_messages_out_total Outbound websocket messages.\n# TYPE ws_messages_out_total counter\nws_messages_out_total "@, metrics.messages_out), text);
    lemma_prefix_of_more(p3, sample("# HELP ws_messages_in_total Inbound websocket messages.\n# TYPE ws_messages_in_total counter\nws_messages_in_total "@, metrics.messages_in), text);
    lemma_prefix_of_more(p2, sample("# HELP ws_rejected_connections_total Rejected websocket connections.\n# TYPE ws_rejected_connections_total counter\nws_rejected_connections_total "@, metrics.rejected_connections), text);
    lemma_prefix_of_more(p1, sample("# HELP ws_accepted_connections_total Accepted websocket connections.\n# TYPE ws_accepted_connections_total counter\nws_accepted_connections_total "@, metrics.accepted_connections), text);
    lemma_heading_active_connections();
    lemma_line_is_shown(text, p0, "# HELP ws_active_connections Active websocket connections.\n# TYPE ws_active_connections gauge\nws_active_connections "@, metrics.active_connections, "\nws_active_connections "@);
    lemma_heading_accepted_connections();
    lemma_line_is_shown(text, p1, "# HELP ws_accepted_connections_total Accepted websocket connections.\n# TYPE ws_accepted_connections_total counter\nws_accepted_connections_total "@, metrics.accepted_connections, "\nws_accepted_connections_total "@);
    lemma_heading_rejected_connections();
    lemma_line_is_shown(text, p2, "# HELP ws_rejected_connections_total Rejected websocket connections.\n# TYPE ws_rejected_connections_total counter\nws_rejected_connections_total "@, metrics.rejected_connections, "\nws_rejected_connections_total "@);
    lemma_heading_messages_in();
    lemma_line_is_shown(text, p3, "# HELP ws_messages_in_total Inbound websocket messages.\n# TYPE ws_messages_in_total counter\nws_messages_in_total "@, metrics.messages_in, "\nws_messages_in_total "@);
    lemma_heading_messages_out();
    lemma_line_is_shown(text, p4, "# HELP ws_messages_out_total Outbound websocket messages.\n# TYPE ws_messages_out_total counter\nws_messages_out_total "@, metrics.messages_out, "\nws_messages_out_total "@);
    lemma_heading_dropped_messages();
    lemma_line_is_shown(text, p5, "# HELP ws_dropped_messages_total Dropped websocket messages.\n# TYPE ws_dropped_messages_total counter\nws_dropped_messages_total "@, metrics.dropped_messages, "\nws_dropped_messages_total "@);
    lemma_heading_protocol_errors();
    lemma_line_is_shown(text, p6, "# HELP ws_protocol_errors_total Invalid websocket protocol messages.\n# TYPE ws_protocol_errors_total counter\nws_protocol_errors_total "@, metrics.protocol_errors, "\nws_protocol_errors_total "@);
    lemma_heading_ip_rejections();
    lemma_line_is_shown(text, p7, "# HELP ws_ip_rejections_total IP-rejected websocket connections.\n# TYPE ws_ip_rejections_total counter\nws_ip_rejections_total "@, metrics.ip_rejections, "\nws_ip_rejections_total "@);
    lemma_heading_auth_rejections();
    lemma_line_is_shown(text, p8, "# HELP ws_auth_rejections_total Auth-rejected websocket connections.\n# TYPE ws_auth_rejections_total counter\nws_auth_rejections_total "@, metrics.auth_rejections, "\nws_auth_rejections_total "@);
    lemma_heading_tenant_rejections();
    lemma_line_is_shown(text, p9, "# HELP ws_tenant_rejections_total Tenant-rejected websocket connections.\n# TYPE ws_tenant_rejections_total counter\nws_tenant_rejections_total "@, metrics.tenant_rejections, "\nws_tenant_rejections_total "@);
    lemma_heading_tenant_rate_rejections();
    lemma_line_is_shown(text, p10, "# HELP ws_tenant_rate_rejections_total Tenant-rate-rejected websocket messages.\n# TYPE ws_tenant_rate_rejections_total counter\nws_tenant_rate_rejections_total "@, metrics.tenant_rate_rejections, "\nws_tenant_rate_rejections_total "@);
}

proof fn lemma_prefix_of_more(front: Seq<char>, more: Seq<char>, text: Seq<char>)
    requires
        (front + more).is_prefix_of(text),
    ensures
        front.is_prefix_of(text),
{
    assert(front =~= (front + more).take(front.len() as int));
    assert(text.take((front + more).len() as int).take(front.len() as int) =~= text.take(
        front.len() as int,
    ));
}

proof fn lemma_line_is_shown(
    text: Seq<char>,
    front: Seq<char>,
    heading: Seq<char>,
    value: u64,
    line: Seq<char>,
)
    requires
        (front + sample(heading, value)).is_prefix_of(text),
        line.is_suffix_of(heading),
    ensures
        shows(text, line, value),
{
    reveal_strlit("\n");
    let whole = front + sample(heading, value);
    let digits = decimal(value as nat);
    let at = front.len() + heading.len() - line.len();
    assert(heading =~= heading.take(heading.len() - line.len()) + line);
    assert(whole =~= text.take(whole.len() as int));
    assert(text.subrange(at, at + (line + digits).len()) =~= line + digits) by {
        assert forall|i: int| 0 <= i < (line + digits).len() implies text[at + i] == (line
            + digits)[i] by {
            assert(text[at + i] == whole[at + i]);
            if i < line.len() {
                assert(whole[at + i] == heading[heading.len() - line.len() + i]);
            } else {
                assert(whole[at + i] == digits[i - line.len()]);
            }
        }
    }
    assert(text[at + (line + digits).len()] == whole[at + (line + digits).len()]);
}

proof fn lemma_heading_active_connections()
    ensures
        "\nws_active_connections "@.is_suffix_of(
            "# HELP ws_active_connections Active websocket connections.\n# TYPE ws_active_connections gauge\nws_active_connections "@,
        ),
{
    reveal_strlit("\nws_active_connections ");
    reveal_strlit(
        "# HELP ws_active_connections Active websocket connections.\n# TYPE ws_active_connections gauge\nws_active_connections ",
    );
    let heading =
        "# HELP ws_active_connections Active websocket connections.\n# TYPE ws_active_connections gauge\nws_active_connections "@;
    let line = "\nws_active_connections "@;
    assert(line =~= heading.skip(heading.len() - line.len()));
}

proof fn lemma_heading_accepted_connections()
    ensures
        "\nws_accepted_connections_total "@.is_suffix_of(
            "# HELP ws_accepted_connections_total Accepted websocket connections.\n# TYPE ws_accepted_connections_total counter\nws_accepted_connections_total "@,
        ),
{
    reveal_strlit("\nws_accepted_connections_total ");
    reveal_strlit(
        "# HELP ws_accepted_connections_total Accepted websocket connections.\n# TYPE ws_accepted_connections_total counter\nws_accepted_connections_total ",
    );
    let heading =
        "# HELP ws_accepted_connections_total Accepted websocket connections.\n# TYPE ws_accepted_connections_total counter\nws_accepted_connections_total "@;
    let line = "\nws_accepted_connections_total "@;
    assert(line =~= heading.skip(heading.len() - line.len()));
}

proof fn lemma_heading_rejected_connections()
    ensures
        "\nws_rejected_connections_total "@.is_suffix_of(
            "# HELP ws_rejected_connections_total Rejected websocket connections.\n# TYPE ws_rejected_connections_total counter\nws_rejected_connections_total "@,
        ),
{
    reveal_strlit("\nws_rejected_connections_total ");
    reveal_strlit(
        "# HELP ws_rejected_connections_total Rejected websocket connections.\n# TYPE ws_rejected_connections_total counter\nws_rejected_connections_total ",
    );
    let heading =
        "# HELP ws_rejected_connections_total Rejected websocket connections.\n# TYPE ws_rejected_connections_total counter\nws_rejected_connections_total "@;
    let line = "\nws_rejected_connections_total "@;
    assert(line =~= heading.skip(heading.len() - line.len()));
}

proof fn lemma_heading_messages_in()
    ensures
        "\nws_messages_in_total "@.is_suffix_of(
            "# HELP ws_messages_in_total Inbound websocket messages.\n# TYPE ws_messages_in_total counter\nws_messages_in_total "@,
        ),
{
    reveal_strlit("\nws_messages_in_total ");
    reveal_strlit(
        "# HELP ws_messages_in_total Inbound websocket messages.\n# TYPE ws_messages_in_total counter\nws_messages_in_total ",
    );
    let heading =
        "# HELP ws_messages_in_total Inbound websocket messages.\n# TYPE ws_messages_in_total counter\nws_messages_in_total "@;
    let line = "\nws_messages_in_total "@;
    assert(line =~= heading.skip(heading.len() - line.len()));
}

proof fn lemma_heading_messages_out()
    ensures
        "\nws_messages_out_total "@.is_suffix_of(
            "# HELP ws_messages_out_total Outbound websocket messages.\n# TYPE ws_messages_out_total counter\nws_messages_out_total "@,
        ),
{
    reveal_strlit("\nws_messages_out_total ");
    reveal_strlit(
        "# HELP ws_messages_out_total Outbound websocket messages.\n# TYPE ws_messages_out_total counter\nws_messages_out_total ",
    );
    let heading =
        "# HELP ws_messages_out_total Outbound websocket messages.\n# TYPE ws_messages_out_total counter\nws_messages_out_total "@;
    let line = "\nws_messages_out_total "@;
    assert(line =~= heading.skip(heading.len() - line.len()));
}

proof fn lemma_heading_dropped_messages()
    ensures
        "\nws_dropped_messages_total "@.is_suffix_of(
            "# HELP ws_dropped_messages_total Dropped websocket messages.\n# TYPE ws_dropped_messages_total counter\nws_dropped_messages_total "@,
        ),
{
    reveal_strlit("\nws_dropped_messages_total ");
    reveal_strlit(
        "# HELP ws_dropped_messages_total Dropped websocket messages.\n# TYPE ws_dropped_messages_total counter\nws_dropped_messages_total ",
    );
    let heading =
        "# HELP ws_dropped_messages_total Dropped websocket messages.\n# TYPE ws_dropped_messages_total counter\nws_dropped_messages_total "@;
    let line = "\nws_dropped_messages_total "@;
    assert(line =~= heading.skip(heading.len() - line.len()));
}

proof fn lemma_heading_protocol_errors()
    ensures
        "\nws_protocol_errors_total "@.is_suffix_of(
            "# HELP ws_protocol_errors_total Invalid websocket protocol messages.\n# TYPE ws_protocol_errors_total counter\nws_protocol_errors_total "@,
        ),
{
    reveal_strlit("\nws_protocol_errors_total ");
    reveal_strlit(
        "# HELP ws_protocol_errors_total Invalid websocket protocol messages.\n# TYPE ws_protocol_errors_total counter\nws_protocol_errors_total ",
    );
    let heading =
        "# HELP ws_protocol_errors_total Invalid websocket protocol messages.\n# TYPE ws_protocol_errors_total counter\nws_protocol_errors_total "@;
    let line = "\nws_protocol_errors_total "@;
    assert(line =~= heading.skip(heading.len() - line.len()));
}

proof fn lemma_heading_ip_rejections()
    ensures
        "\nws_ip_rejections_total "@.is_suffix_of(
            "# HELP ws_ip_rejections_total IP-rejected websocket connections.\n# TYPE ws_ip_rejections_total counter\nws_ip_rejections_total "@,
        ),
{
    reveal_strlit("\nws_ip_rejections_total ");
    reveal_strlit(
        "# HELP ws_ip_rejections_total IP-rejected websocket connections.\n# TYPE ws_ip_rejections_total counter\nws_ip_rejections_total ",
    );
    let heading =
        "# HELP ws_ip_rejections_total IP-rejected websocket connections.\n# TYPE ws_ip_rejections_total counter\nws_ip_rejections_total "@;
    let line = "\nws_ip_rejections_total "@;
    assert(line =~= heading.skip(heading.len() - line.len()));
}

proof fn lemma_heading_auth_rejections()
    ensures
        "\nws_auth_rejections_total "@.is_suffix_of(
            "# HELP ws_auth_rejections_total Auth-rejected websocket connections.\n# TYPE ws_auth_rejections_total counter\nws_auth_rejections_total "@,
        ),
{
    reveal_strlit("\nws_auth_rejections_total ");
    reveal_strlit(
        "# HELP ws_auth_rejections_total Auth-rejected websocket connections.\n# TYPE ws_auth_rejections_total counter\nws_auth_rejections_total ",
    );
    let heading =
        "# HELP ws_auth_rejections_total Auth-rejected websocket connections.\n# TYPE ws_auth_rejections_total counter\nws_auth_rejections_total "@;
    let line = "\nws_auth_rejections_total "@;
    assert(line =~= heading.skip(heading.len() - line.len()));
}

proof fn lemma_heading_tenant_rejections()
    ensures
        "\nws_tenant_rejections_total "@.is_suffix_of(
            "# HELP ws_tenant_rejections_total Tenant-rejected websocket connections.\n# TYPE ws_tenant_rejections_total counter\nws_tenant_rejections_total "@,
        ),
{
    reveal_strlit("\nws_tenant_rejections_total ");
    reveal_strlit(
        "# HELP ws_tenant_rejections_total Tenant-rejected websocket connections.\n# TYPE ws_tenant_rejections_total counter\nws_tenant_rejections_total ",
    );
    let heading =
        "# HELP ws_tenant_rejections_total Tenant-rejected websocket connections.\n# TYPE ws_tenant_rejections_total counter\nws_tenant_rejections_total "@;
    let line = "\nws_tenant_rejections_total "@;
    assert(line =~= heading.skip(heading.len() - line.len()));
}

proof fn lemma_heading_tenant_rate_rejections()
    ensures
        "\nws_tenant_rate_rejections_total "@.is_suffix_of(
            "# HELP ws_tenant_rate_rejections_total Tenant-rate-rejected websocket messages.\n# TYPE ws_tenant_rate_rejections_total counter\nws_tenant_rate_rejections_total "@,
        ),
{
    reveal_strlit("\nws_tenant_rate_rejections_total ");
    reveal_strlit(
        "# HELP ws_tenant_rate_rejections_total Tenant-rate-rejected websocket messages.\n# TYPE ws_tenant_rate_rejections_total counter\nws_tenant_rate_rejections_total ",
    );
    let heading =
        "# HELP ws_tenant_rate_rejections_total Tenant-rate-rejected websocket messages.\n# TYPE ws_tenant_rate_rejections_total counter\nws_tenant_rate_rejections_total "@;
    let line = "\nws_tenant_rate_rejections_total "@;
    assert(line =~= heading.skip(heading.len() - line.len()));
}

} // verus!
