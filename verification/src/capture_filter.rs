//! A typed builder for the capture driver's filter expressions, and
//! the preset expressions the engine composes at start-up.
//!
//! The builder keeps a list of parts — keywords, conditions and
//! operators — and renders them with "and" inserted between adjacent
//! predicates, so that chained calls read naturally.

use crate::util::{decimal_string, spec_ascii_chars, spec_decimal};
use vstd::prelude::*;
use vstd::string::*;

verus! {

/// One part of a filter expression.
#[derive(Debug)]
pub enum FilterPart {
    /// A bare predicate keyword such as a direction or protocol.
    Keyword(String),
    /// A comparison or flag condition.
    Condition(String),
    /// The "and" operator.
    And,
    /// The "or" operator.
    Or,
    /// The "not" operator.
    Not,
    /// An opening parenthesis.
    GroupStart,
    /// A closing parenthesis.
    GroupEnd,
}

/// The abstract value of a part: its kind and its text.
pub enum FilterPartView {
    /// A keyword and its characters.
    Keyword(Seq<char>),
    /// A condition and its characters.
    Condition(Seq<char>),
    /// The "and" operator.
    And,
    /// The "or" operator.
    Or,
    /// The "not" operator.
    Not,
    /// An opening parenthesis.
    GroupStart,
    /// A closing parenthesis.
    GroupEnd,
}

/// The abstract value of a part.
pub open spec fn spec_part_view(p: FilterPart) -> FilterPartView {
    match p {
        FilterPart::Keyword(k) => FilterPartView::Keyword(k@),
        FilterPart::Condition(c) => FilterPartView::Condition(c@),
        FilterPart::And => FilterPartView::And,
        FilterPart::Or => FilterPartView::Or,
        FilterPart::Not => FilterPartView::Not,
        FilterPart::GroupStart => FilterPartView::GroupStart,
        FilterPart::GroupEnd => FilterPartView::GroupEnd,
    }
}

/// The abstract values of a part list.
pub open spec fn spec_part_views(ps: Seq<FilterPart>) -> Seq<FilterPartView> {
    ps.map_values(|p: FilterPart| spec_part_view(p))
}

/// How the parts from `i` on render, given whether the text so far
/// ends in a keyword, condition or closing parenthesis (`prev`): a
/// connective "and" is inserted before a predicate that follows one.
pub open spec fn spec_render_from(ps: Seq<FilterPartView>, i: int, prev: bool) -> Seq<char>
    decreases ps.len() - i,
{
    if i < 0 || i >= ps.len() {
        Seq::empty()
    } else {
        match ps[i] {
            FilterPartView::Keyword(k) => (if prev {
                " and "@
            } else {
                Seq::empty()
            }) + k + spec_render_from(ps, i + 1, true),
            FilterPartView::Condition(c) => (if prev {
                " and "@
            } else {
                Seq::empty()
            }) + c + spec_render_from(ps, i + 1, true),
            FilterPartView::And => " and "@ + spec_render_from(ps, i + 1, false),
            FilterPartView::Or => " or "@ + spec_render_from(ps, i + 1, false),
            FilterPartView::Not => (if prev {
                " and "@
            } else {
                Seq::empty()
            }) + "not "@ + spec_render_from(ps, i + 1, false),
            FilterPartView::GroupStart => (if prev {
                " and "@
            } else {
                Seq::empty()
            }) + "("@ + spec_render_from(ps, i + 1, false),
            FilterPartView::GroupEnd => ")"@ + spec_render_from(ps, i + 1, true),
        }
    }
}

/// The full rendering of a part list.
pub open spec fn spec_render(ps: Seq<FilterPartView>) -> Seq<char> {
    spec_render_from(ps, 0, false)
}

/// A typed builder for filter expressions.
#[derive(Debug)]
pub struct FilterBuilder {
    /// The expression parts, in order.
    pub parts: Vec<FilterPart>,
}

/// The characters of the condition comparing a field to a number.
pub open spec fn spec_num_cond(prefix: Seq<char>, n: int) -> Seq<char> {
    prefix + spec_ascii_chars(spec_decimal(n))
}

impl FilterBuilder {
    /// The abstract values of the collected parts.
    pub open spec fn view_parts(self) -> Seq<FilterPartView> {
        spec_part_views(self.parts@)
    }

    /// A new, empty builder.
    pub fn new() -> (r: FilterBuilder)
        ensures
            r.view_parts() == Seq::<FilterPartView>::empty(),
    {
        let r = FilterBuilder { parts: Vec::new() };
        proof {
            assert(r.view_parts() =~= Seq::<FilterPartView>::empty());
        }
        r
    }

    /// Add the "outbound" direction keyword.
    pub fn outbound(self) -> (r: FilterBuilder)
        ensures
            r.view_parts() == self.view_parts().push(FilterPartView::Keyword("outbound"@)),
    {
        self.push_keyword("outbound")
    }

    /// Add the "inbound" direction keyword.
    pub fn inbound(self) -> (r: FilterBuilder)
        ensures
            r.view_parts() == self.view_parts().push(FilterPartView::Keyword("inbound"@)),
    {
        self.push_keyword("inbound")
    }

    /// Add the "tcp" protocol keyword.
    pub fn tcp(self) -> (r: FilterBuilder)
        ensures
            r.view_parts() == self.view_parts().push(FilterPartView::Keyword("tcp"@)),
    {
        self.push_keyword("tcp")
    }

    /// Add the "udp" protocol keyword.
    pub fn udp(self) -> (r: FilterBuilder)
        ensures
            r.view_parts() == self.view_parts().push(FilterPartView::Keyword("udp"@)),
    {
        self.push_keyword("udp")
    }

    /// Add the "ip" (IPv4) keyword.
    pub fn ip(self) -> (r: FilterBuilder)
        ensures
            r.view_parts() == self.view_parts().push(FilterPartView::Keyword("ip"@)),
    {
        self.push_keyword("ip")
    }

    /// Add the "ipv6" keyword.
    pub fn ipv6(self) -> (r: FilterBuilder)
        ensures
            r.view_parts() == self.view_parts().push(FilterPartView::Keyword("ipv6"@)),
    {
        self.push_keyword("ipv6")
    }

    /// Add the "icmp" keyword.
    pub fn icmp(self) -> (r: FilterBuilder)
        ensures
            r.view_parts() == self.view_parts().push(FilterPartView::Keyword("icmp"@)),
    {
        self.push_keyword("icmp")
    }

    /// Add the "loopback" keyword.
    pub fn loopback(self) -> (r: FilterBuilder)
        ensures
            r.view_parts() == self.view_parts().push(FilterPartView::Keyword("loopback"@)),
    {
        self.push_keyword("loopback")
    }

    /// Add a TCP destination-port condition.
    pub fn dst_port(self, port: u16) -> (r: FilterBuilder)
        ensures
            r.view_parts() == self.view_parts().push(
                FilterPartView::Condition(spec_num_cond("tcp.DstPort == "@, port as int)),
            ),
    {
        self.push_num_cond("tcp.DstPort == ", port)
    }

    /// Add a TCP destination-port range condition.
    pub fn dst_port_range(self, min: u16, max: u16) -> (r: FilterBuilder)
        ensures
            r.view_parts() == self.view_parts().push(
                FilterPartView::Condition(
                    "(tcp.DstPort >= "@ + spec_ascii_chars(spec_decimal(min as int))
                        + " and tcp.DstPort <= "@ + spec_ascii_chars(spec_decimal(max as int))
                        + ")"@,
                ),
            ),
    {
        let mut c = String::new();
        c.append("(tcp.DstPort >= ");
        c.append(decimal_string(min as u64).as_str());
        c.append(" and tcp.DstPort <= ");
        c.append(decimal_string(max as u64).as_str());
        c.append(")");
        self.push_condition_string(c)
    }

    /// Add a UDP destination-port condition.
    pub fn udp_dst_port(self, port: u16) -> (r: FilterBuilder)
        ensures
            r.view_parts() == self.view_parts().push(
                FilterPartView::Condition(spec_num_cond("udp.DstPort == "@, port as int)),
            ),
    {
        self.push_num_cond("udp.DstPort == ", port)
    }

    /// Add a TCP source-port condition.
    pub fn src_port(self, port: u16) -> (r: FilterBuilder)
        ensures
            r.view_parts() == self.view_parts().push(
                FilterPartView::Condition(spec_num_cond("tcp.SrcPort == "@, port as int)),
            ),
    {
        self.push_num_cond("tcp.SrcPort == ", port)
    }

    /// Add an IPv4 destination-address condition.
    pub fn dst_addr(self, ip: &str) -> (r: FilterBuilder)
        ensures
            r.view_parts() == self.view_parts().push(
                FilterPartView::Condition("ip.DstAddr == "@ + ip@),
            ),
    {
        let mut c = String::new();
        c.append("ip.DstAddr == ");
        c.append(ip);
        self.push_condition_string(c)
    }

    /// Add an IPv4 source-address condition.
    pub fn src_addr(self, ip: &str) -> (r: FilterBuilder)
        ensures
            r.view_parts() == self.view_parts().push(
                FilterPartView::Condition("ip.SrcAddr == "@ + ip@),
            ),
    {
        let mut c = String::new();
        c.append("ip.SrcAddr == ");
        c.append(ip);
        self.push_condition_string(c)
    }

    /// Add the TCP SYN-flag condition.
    pub fn tcp_syn(self) -> (r: FilterBuilder)
        ensures
            r.view_parts() == self.view_parts().push(FilterPartView::Condition("tcp.Syn"@)),
    {
        self.push_condition("tcp.Syn")
    }

    /// Add the TCP ACK-flag condition.
    pub fn tcp_ack(self) -> (r: FilterBuilder)
        ensures
            r.view_parts() == self.view_parts().push(FilterPartView::Condition("tcp.Ack"@)),
    {
        self.push_condition("tcp.Ack")
    }

    /// Add the TCP PSH-flag condition.
    pub fn tcp_psh(self) -> (r: FilterBuilder)
        ensures
            r.view_parts() == self.view_parts().push(FilterPartView::Condition("tcp.Psh"@)),
    {
        self.push_condition("tcp.Psh")
    }

    /// Add the TCP RST-flag condition.
    pub fn tcp_rst(self) -> (r: FilterBuilder)
        ensures
            r.view_parts() == self.view_parts().push(FilterPartView::Condition("tcp.Rst"@)),
    {
        self.push_condition("tcp.Rst")
    }

    /// Add the TCP FIN-flag condition.
    pub fn tcp_fin(self) -> (r: FilterBuilder)
        ensures
            r.view_parts() == self.view_parts().push(FilterPartView::Condition("tcp.Fin"@)),
    {
        self.push_condition("tcp.Fin")
    }

    /// Add a TCP payload-length comparison with the given operator.
    pub fn tcp_payload_size(self, op: &str, size: u32) -> (r: FilterBuilder)
        ensures
            r.view_parts() == self.view_parts().push(
                FilterPartView::Condition(
                    "tcp.PayloadLength "@ + op@ + " "@ + spec_ascii_chars(
                        spec_decimal(size as int),
                    ),
                ),
            ),
    {
        let mut c = String::new();
        c.append("tcp.PayloadLength ");
        c.append(op);
        c.append(" ");
        c.append(decimal_string(size as u64).as_str());
        self.push_condition_string(c)
    }

    /// Add the "and" operator explicitly.
    pub fn and(self) -> (r: FilterBuilder)
        ensures
            r.view_parts() == self.view_parts().push(FilterPartView::And),
    {
        self.push_part(FilterPart::And)
    }

    /// Add the "or" operator.
    pub fn or(self) -> (r: FilterBuilder)
        ensures
            r.view_parts() == self.view_parts().push(FilterPartView::Or),
    {
        self.push_part(FilterPart::Or)
    }

    /// Add the "not" operator.
    pub fn not(self) -> (r: FilterBuilder)
        ensures
            r.view_parts() == self.view_parts().push(FilterPartView::Not),
    {
        self.push_part(FilterPart::Not)
    }

    /// Open a parenthesised group.
    pub fn group_start(self) -> (r: FilterBuilder)
        ensures
            r.view_parts() == self.view_parts().push(FilterPartView::GroupStart),
    {
        self.push_part(FilterPart::GroupStart)
    }

    /// Close a parenthesised group.
    pub fn group_end(self) -> (r: FilterBuilder)
        ensures
            r.view_parts() == self.view_parts().push(FilterPartView::GroupEnd),
    {
        self.push_part(FilterPart::GroupEnd)
    }

    /// Add a raw condition verbatim.
    pub fn raw(self, condition: &str) -> (r: FilterBuilder)
        ensures
            r.view_parts() == self.view_parts().push(FilterPartView::Condition(condition@)),
    {
        let c = condition.to_owned();
        self.push_condition_string(c)
    }

    /// Render the collected parts into the filter expression.
    #[verifier::loop_isolation(false)]
    pub fn build(self) -> (r: String)
        ensures
            r@ == spec_render(self.view_parts()),
    {
        let ghost views = self.view_parts();
        let mut result = String::new();
        let mut prev = false;
        let n = self.parts.len();
        let mut i: usize = 0;
        while i < n
            invariant
                i <= n,
                n == self.parts@.len(),
                views == spec_part_views(self.parts@),
                spec_render_from(views, 0, false) == result@ + spec_render_from(
                    views,
                    i as int,
                    prev,
                ),
            decreases n - i,
        {
            let ghost result0 = result@;
            let ghost prev0 = prev;
            match &self.parts[i] {
                FilterPart::Keyword(k) => {
                    if prev {
                        result.append(" and ");
                    }
                    result.append(k.as_str());
                    prev = true;
                },
                FilterPart::Condition(c) => {
                    if prev {
                        result.append(" and ");
                    }
                    result.append(c.as_str());
                    prev = true;
                },
                FilterPart::And => {
                    result.append(" and ");
                    prev = false;
                },
                FilterPart::Or => {
                    result.append(" or ");
                    prev = false;
                },
                FilterPart::Not => {
                    if prev {
                        result.append(" and ");
                    }
                    result.append("not ");
                    prev = false;
                },
                FilterPart::GroupStart => {
                    if prev {
                        result.append(" and ");
                    }
                    result.append("(");
                    prev = false;
                },
                FilterPart::GroupEnd => {
                    result.append(")");
                    prev = true;
                },
            }
            proof {
                assert(views[i as int] == spec_part_view(self.parts@[i as int]));
                assert(result0 + spec_render_from(views, i as int, prev0) =~= result@
                    + spec_render_from(views, i + 1, prev));
            }
            i = i + 1;
        }
        proof {
            assert(spec_render_from(views, n as int, prev) =~= Seq::<char>::empty());
            assert(result@ + Seq::<char>::empty() =~= result@);
        }
        result
    }

    /// Append a keyword part.
    fn push_keyword(self, word: &str) -> (r: FilterBuilder)
        ensures
            r.view_parts() == self.view_parts().push(FilterPartView::Keyword(word@)),
    {
        self.push_part(FilterPart::Keyword(word.to_owned()))
    }

    /// Append a condition part with fixed text.
    fn push_condition(self, text: &str) -> (r: FilterBuilder)
        ensures
            r.view_parts() == self.view_parts().push(FilterPartView::Condition(text@)),
    {
        self.push_part(FilterPart::Condition(text.to_owned()))
    }

    /// Append a condition part built from a string.
    fn push_condition_string(self, text: String) -> (r: FilterBuilder)
        ensures
            r.view_parts() == self.view_parts().push(FilterPartView::Condition(text@)),
    {
        self.push_part(FilterPart::Condition(text))
    }

    /// Append a numeric comparison condition.
    fn push_num_cond(self, prefix: &str, n: u16) -> (r: FilterBuilder)
        ensures
            r.view_parts() == self.view_parts().push(
                FilterPartView::Condition(spec_num_cond(prefix@, n as int)),
            ),
    {
        let mut c = String::new();
        c.append(prefix);
        c.append(decimal_string(n as u64).as_str());
        self.push_part(FilterPart::Condition(c))
    }

    /// Append one part.
    fn push_part(self, part: FilterPart) -> (r: FilterBuilder)
        ensures
            r.view_parts() == self.view_parts().push(spec_part_view(part)),
    {
        let mut parts = self.parts;
        let ghost part_view = spec_part_view(part);
        let ghost before = parts@;
        parts.push(part);
        let r = FilterBuilder { parts };
        proof {
            assert(r.view_parts() =~= spec_part_views(before).push(part_view));
        }
        r
    }
}

/// The filter presets the engine composes at start-up.
pub struct FilterPresets;

impl FilterPresets {
    /// Outbound HTTP request packets: port 80, PSH and ACK set.
    pub fn http_outbound() -> (r: String)
        ensures
            r@ == "outbound and tcp and tcp.DstPort == 80 and tcp.Psh and tcp.Ack"@,
    {
        let b = FilterBuilder::new().outbound().tcp().dst_port(80).tcp_psh().tcp_ack();
        let ghost vs = b.view_parts();
        proof {
            let d80 = spec_ascii_chars(spec_decimal(80));
            assert(vs =~= seq![
                FilterPartView::Keyword("outbound"@),
                FilterPartView::Keyword("tcp"@),
                FilterPartView::Condition("tcp.DstPort == "@ + d80),
                FilterPartView::Condition("tcp.Psh"@),
                FilterPartView::Condition("tcp.Ack"@),
            ]);
            assert(spec_decimal(8) =~= seq![56u8]);
            assert(spec_decimal(80) =~= seq![56u8, 48u8]);
            assert(d80 =~= seq!['8', '0']);
            assert(spec_render_from(vs, 5, true) =~= Seq::<char>::empty());
            assert(spec_render_from(vs, 4, true) =~= " and "@ + ("tcp.Ack"@)
                + spec_render_from(vs, 5, true));
            assert(spec_render_from(vs, 3, true) =~= " and "@ + ("tcp.Psh"@)
                + spec_render_from(vs, 4, true));
            assert(spec_render_from(vs, 2, true) =~= " and "@ + ("tcp.DstPort == "@ + d80)
                + spec_render_from(vs, 3, true));
            assert(spec_render_from(vs, 1, true) =~= " and "@ + ("tcp"@)
                + spec_render_from(vs, 2, true));
            assert(spec_render_from(vs, 0, false) =~= ("outbound"@) + spec_render_from(
                vs,
                1,
                true,
            ));
            reveal_strlit("outbound");
            reveal_strlit("tcp");
            reveal_strlit(" and ");
            reveal_strlit("tcp.DstPort == ");
            reveal_strlit("tcp.Psh");
            reveal_strlit("tcp.Ack");
            reveal_strlit("outbound and tcp and tcp.DstPort == 80 and tcp.Psh and tcp.Ack");
            assert(spec_render(vs) =~= "outbound and tcp and tcp.DstPort == 80 and tcp.Psh and tcp.Ack"@);
        }
        b.build()
    }

    /// Outbound HTTPS packets: port 443.
    pub fn https_outbound() -> (r: String)
        ensures
            r@ == "outbound and tcp and tcp.DstPort == 443"@,
    {
        let b = FilterBuilder::new().outbound().tcp().dst_port(443);
        let ghost vs = b.view_parts();
        proof {
            let d443 = spec_ascii_chars(spec_decimal(443));
            assert(vs =~= seq![
                FilterPartView::Keyword("outbound"@),
                FilterPartView::Keyword("tcp"@),
                FilterPartView::Condition("tcp.DstPort == "@ + d443),
            ]);
            assert(spec_decimal(4) =~= seq![52u8]);
            assert(spec_decimal(44) =~= seq![52u8, 52u8]);
            assert(spec_decimal(443) =~= seq![52u8, 52u8, 51u8]);
            assert(d443 =~= seq!['4', '4', '3']);
            assert(spec_render_from(vs, 3, true) =~= Seq::<char>::empty());
            assert(spec_render_from(vs, 2, true) =~= " and "@ + ("tcp.DstPort == "@ + d443)
                + spec_render_from(vs, 3, true));
            assert(spec_render_from(vs, 1, true) =~= " and "@ + ("tcp"@)
                + spec_render_from(vs, 2, true));
            assert(spec_render_from(vs, 0, false) =~= ("outbound"@) + spec_render_from(
                vs,
                1,
                true,
            ));
            reveal_strlit("outbound");
            reveal_strlit("tcp");
            reveal_strlit(" and ");
            reveal_strlit("tcp.DstPort == ");
            reveal_strlit("outbound and tcp and tcp.DstPort == 443");
            assert(spec_render(vs) =~= "outbound and tcp and tcp.DstPort == 443"@);
        }
        b.build()
    }

    /// Outbound ClientHello candidates: port 443, PSH and ACK, data.
    pub fn https_client_hello() -> (r: String)
        ensures
            r@ == "outbound and tcp and tcp.DstPort == 443 and tcp.Psh and tcp.Ack and tcp.PayloadLength > 0"@,
    {
        let b = FilterBuilder::new().outbound().tcp().dst_port(443).tcp_psh().tcp_ack().tcp_payload_size(
            ">",
            0,
        );
        let ghost vs = b.view_parts();
        proof {
            let d443 = spec_ascii_chars(spec_decimal(443));
            let d0 = spec_ascii_chars(spec_decimal(0));
            assert(vs =~= seq![
                FilterPartView::Keyword("outbound"@),
                FilterPartView::Keyword("tcp"@),
                FilterPartView::Condition("tcp.DstPort == "@ + d443),
                FilterPartView::Condition("tcp.Psh"@),
                FilterPartView::Condition("tcp.Ack"@),
                FilterPartView::Condition("tcp.PayloadLength "@ + ">"@ + " "@ + d0),
            ]);
            assert(spec_decimal(4) =~= seq![52u8]);
            assert(spec_decimal(44) =~= seq![52u8, 52u8]);
            assert(spec_decimal(443) =~= seq![52u8, 52u8, 51u8]);
            assert(spec_decimal(0) =~= seq![48u8]);
            assert(d443 =~= seq!['4', '4', '3']);
            assert(d0 =~= seq!['0']);
            assert(spec_render_from(vs, 6, true) =~= Seq::<char>::empty());
            assert(spec_render_from(vs, 5, true) =~= " and "@ + ("tcp.PayloadLength "@ + ">"@ + " "@ + d0)
                + spec_render_from(vs, 6, true));
            assert(spec_render_from(vs, 4, true) =~= " and "@ + ("tcp.Ack"@)
                + spec_render_from(vs, 5, true));
            assert(spec_render_from(vs, 3, true) =~= " and "@ + ("tcp.Psh"@)
                + spec_render_from(vs, 4, true));
            assert(spec_render_from(vs, 2, true) =~= " and "@ + ("tcp.DstPort == "@ + d443)
                + spec_render_from(vs, 3, true));
            assert(spec_render_from(vs, 1, true) =~= " and "@ + ("tcp"@)
                + spec_render_from(vs, 2, true));
            assert(spec_render_from(vs, 0, false) =~= ("outbound"@) + spec_render_from(
                vs,
                1,
                true,
            ));
            reveal_strlit("outbound");
            reveal_strlit("tcp");
            reveal_strlit(" and ");
            reveal_strlit("tcp.DstPort == ");
            reveal_strlit("tcp.Psh");
            reveal_strlit("tcp.Ack");
            reveal_strlit("tcp.PayloadLength ");
            reveal_strlit(">");
            reveal_strlit(" ");
            reveal_strlit("outbound and tcp and tcp.DstPort == 443 and tcp.Psh and tcp.Ack and tcp.PayloadLength > 0");
            assert(spec_render(vs) =~= "outbound and tcp and tcp.DstPort == 443 and tcp.Psh and tcp.Ack and tcp.PayloadLength > 0"@);
        }
        b.build()
    }

    /// Outbound DNS queries: UDP port 53.
    pub fn dns_outbound() -> (r: String)
        ensures
            r@ == "outbound and udp and udp.DstPort == 53"@,
    {
        let b = FilterBuilder::new().outbound().udp().udp_dst_port(53);
        let ghost vs = b.view_parts();
        proof {
            let d = spec_ascii_chars(spec_decimal(53));
            assert(vs =~= seq![
                FilterPartView::Keyword("outbound"@),
                FilterPartView::Keyword("udp"@),
                FilterPartView::Condition("udp.DstPort == "@ + d),
            ]);
            assert(spec_decimal(5) =~= seq![53u8]);
            assert(spec_decimal(53) =~= seq![53u8, 51u8]);
            assert(d =~= seq!['5', '3']);
            assert(spec_render_from(vs, 3, true) =~= Seq::<char>::empty());
            assert(spec_render_from(vs, 2, true) =~= " and "@ + ("udp.DstPort == "@ + d));
            assert(spec_render_from(vs, 1, true) =~= " and "@ + "udp"@ + spec_render_from(
                vs,
                2,
                true,
            ));
            assert(spec_render_from(vs, 0, false) =~= "outbound"@ + spec_render_from(
                vs,
                1,
                true,
            ));
            reveal_strlit("outbound");
            reveal_strlit("udp");
            reveal_strlit(" and ");
            reveal_strlit("udp.DstPort == ");
            reveal_strlit("outbound and udp and udp.DstPort == 53");
            assert(spec_render(vs) =~= "outbound and udp and udp.DstPort == 53"@);
        }
        b.build()
    }

    /// Outbound QUIC: UDP port 443.
    pub fn quic_outbound() -> (r: String)
        ensures
            r@ == "outbound and udp and udp.DstPort == 443"@,
    {
        let b = FilterBuilder::new().outbound().udp().udp_dst_port(443);
        let ghost vs = b.view_parts();
        proof {
            let d443 = spec_ascii_chars(spec_decimal(443));
            assert(vs =~= seq![
                FilterPartView::Keyword("outbound"@),
                FilterPartView::Keyword("udp"@),
                FilterPartView::Condition("udp.DstPort == "@ + d443),
            ]);
            assert(spec_decimal(4) =~= seq![52u8]);
            assert(spec_decimal(44) =~= seq![52u8, 52u8]);
            assert(spec_decimal(443) =~= seq![52u8, 52u8, 51u8]);
            assert(d443 =~= seq!['4', '4', '3']);
            assert(spec_render_from(vs, 3, true) =~= Seq::<char>::empty());
            assert(spec_render_from(vs, 2, true) =~= " and "@ + ("udp.DstPort == "@ + d443)
                + spec_render_from(vs, 3, true));
            assert(spec_render_from(vs, 1, true) =~= " and "@ + ("udp"@)
                + spec_render_from(vs, 2, true));
            assert(spec_render_from(vs, 0, false) =~= ("outbound"@) + spec_render_from(
                vs,
                1,
                true,
            ));
            reveal_strlit("outbound");
            reveal_strlit("udp");
            reveal_strlit(" and ");
            reveal_strlit("udp.DstPort == ");
            reveal_strlit("outbound and udp and udp.DstPort == 443");
            assert(spec_render(vs) =~= "outbound and udp and udp.DstPort == 443"@);
        }
        b.build()
    }

    /// Inbound SYN-ACK packets, which feed the hop table.
    pub fn syn_ack_inbound() -> (r: String)
        ensures
            r@ == "inbound and tcp and tcp.Syn and tcp.Ack"@,
    {
        let b = FilterBuilder::new().inbound().tcp().tcp_syn().tcp_ack();
        let ghost vs = b.view_parts();
        proof {

            assert(vs =~= seq![
                FilterPartView::Keyword("inbound"@),
                FilterPartView::Keyword("tcp"@),
                FilterPartView::Condition("tcp.Syn"@),
                FilterPartView::Condition("tcp.Ack"@),
            ]);

            assert(spec_render_from(vs, 4, true) =~= Seq::<char>::empty());
            assert(spec_render_from(vs, 3, true) =~= " and "@ + ("tcp.Ack"@)
                + spec_render_from(vs, 4, true));
            assert(spec_render_from(vs, 2, true) =~= " and "@ + ("tcp.Syn"@)
                + spec_render_from(vs, 3, true));
            assert(spec_render_from(vs, 1, true) =~= " and "@ + ("tcp"@)
                + spec_render_from(vs, 2, true));
            assert(spec_render_from(vs, 0, false) =~= ("inbound"@) + spec_render_from(
                vs,
                1,
                true,
            ));
            reveal_strlit("inbound");
            reveal_strlit("tcp");
            reveal_strlit(" and ");
            reveal_strlit("tcp.Syn");
            reveal_strlit("tcp.Ack");
            reveal_strlit("inbound and tcp and tcp.Syn and tcp.Ack");
            assert(spec_render(vs) =~= "inbound and tcp and tcp.Syn and tcp.Ack"@);
        }
        b.build()
    }

    /// The basic web filter: outbound TCP to port 80 or 443.
    pub fn goodbyedpi_basic() -> (r: String)
        ensures
            r@ == "outbound and tcp and (tcp.DstPort == 80 or tcp.DstPort == 443)"@,
    {
        "outbound and tcp and (tcp.DstPort == 80 or tcp.DstPort == 443)".to_owned()
    }

    /// The full filter: web traffic, DNS queries, and inbound SYN-ACK.
    pub fn goodbyedpi_full() -> (r: String)
        ensures
            r@
                == "(outbound and tcp and (tcp.DstPort == 80 or tcp.DstPort == 443)) or (outbound and udp and udp.DstPort == 53) or (inbound and tcp and tcp.Syn and tcp.Ack)"@,
    {
        "(outbound and tcp and (tcp.DstPort == 80 or tcp.DstPort == 443)) or (outbound and udp and udp.DstPort == 53) or (inbound and tcp and tcp.Syn and tcp.Ack)".to_owned()
    }

    /// The regional filter: the full filter plus outbound QUIC, so the
    /// QUIC blocker sees those packets too.
    pub fn turkey_optimized() -> (r: String)
        ensures
            r@
                == "(outbound and tcp and (tcp.DstPort == 80 or tcp.DstPort == 443)) or (outbound and udp and (udp.DstPort == 53 or udp.DstPort == 443)) or (inbound and tcp and tcp.Syn and tcp.Ack)"@,
    {
        "(outbound and tcp and (tcp.DstPort == 80 or tcp.DstPort == 443)) or (outbound and udp and (udp.DstPort == 53 or udp.DstPort == 443)) or (inbound and tcp and tcp.Syn and tcp.Ack)".to_owned()
    }
}

} // verus!
