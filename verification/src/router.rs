//! Request router/rewriter: evaluates the ordered redirect-rule set on each
//! decrypted request head — first match wins — and either relays the bytes
//! untouched to the original upstream or redirects them to the rule's
//! alternate server. Responses are never rewritten, and bodies are never
//! re-parsed. Each request is evaluated independently of any request that
//! came before it on the same connection.

use vstd::prelude::*;
use crate::bytes::{append_to, bytes_eq, copy_vec, find_from, is_prefix_of, starts_with_bytes, subvec};
use crate::http::{find_host, request_line_splits, scan_crlf, scan_head_end, spec_parse_head};

verus! {

/// The TLS port requests go to when no rule redirects them.
pub const HTTPS_PORT: u16 = 443;

/// One redirect rule: a request whose host equals `match_host` and whose
/// path starts with `match_path` is sent to `target_host:target_port`.
/// When `replace_path` is set, the matched prefix of the path is replaced
/// by it; otherwise the path is preserved as it is.
pub struct RedirectRule {
    pub match_host: Vec<u8>,
    pub match_path: Vec<u8>,
    pub target_host: Vec<u8>,
    pub target_port: u16,
    pub replace_path: Option<Vec<u8>>,
}

/// Ghost model of a redirect rule.
pub struct RuleModel {
    pub match_host: Seq<u8>,
    pub match_path: Seq<u8>,
    pub target_host: Seq<u8>,
    pub target_port: u16,
    pub replace_path: Option<Seq<u8>>,
}

impl View for RedirectRule {
    type V = RuleModel;

    open spec fn view(&self) -> RuleModel {
        RuleModel {
            match_host: self.match_host@,
            match_path: self.match_path@,
            target_host: self.target_host@,
            target_port: self.target_port,
            replace_path: match self.replace_path {
                Some(p) => Some(p@),
                None => None,
            },
        }
    }
}

/// The views of a rule list.
pub open spec fn rules_view(rules: Seq<RedirectRule>) -> Seq<RuleModel> {
    rules.map_values(|r: RedirectRule| r@)
}

/// The rule applies to this host and path.
pub open spec fn rule_matches(r: RuleModel, host: Seq<u8>, path: Seq<u8>) -> bool {
    r.match_host == host && is_prefix_of(r.match_path, path)
}

/// Index of the first rule at `i` or later that applies.
pub open spec fn first_match_from(
    rules: Seq<RuleModel>,
    host: Seq<u8>,
    path: Seq<u8>,
    i: int,
) -> Option<int>
    decreases rules.len() - i,
{
    if i < 0 || i >= rules.len() {
        None
    } else if rule_matches(rules[i], host, path) {
        Some(i)
    } else {
        first_match_from(rules, host, path, i + 1)
    }
}

/// Index of the first rule that applies: first match wins.
pub open spec fn spec_first_match(rules: Seq<RuleModel>, host: Seq<u8>, path: Seq<u8>) -> Option<
    int,
> {
    first_match_from(rules, host, path, 0)
}

/// `first_match_from` returns the first applying rule at `i` or later, or
/// reports that none applies.
pub proof fn lemma_first_match_from(rules: Seq<RuleModel>, host: Seq<u8>, path: Seq<u8>, i: int)
    requires
        0 <= i,
    ensures
        first_match_from(rules, host, path, i) matches Some(k) ==> i <= k < rules.len()
            && rule_matches(rules[k], host, path) && (forall|j: int|
            i <= j < k ==> !rule_matches(rules[j], host, path)),
        first_match_from(rules, host, path, i) is None ==> forall|j: int|
            i <= j < rules.len() ==> !rule_matches(rules[j], host, path),
    decreases rules.len() - i,
{
    if i < rules.len() && !rule_matches(rules[i], host, path) {
        lemma_first_match_from(rules, host, path, i + 1);
    }
}

/// Whether this rule applies to the request's host and path.
pub fn rule_applies(r: &RedirectRule, host: &Vec<u8>, path: &Vec<u8>) -> (b: bool)
    ensures
        b == rule_matches(r@, host@, path@),
{
    bytes_eq(&r.match_host, host) && starts_with_bytes(path, &r.match_path)
}

/// Index of the first rule in `rules` that applies to `host` and `path`.
pub fn find_rule(rules: &Vec<RedirectRule>, host: &Vec<u8>, path: &Vec<u8>) -> (r: Option<usize>)
    ensures
        r matches Some(i) ==> i < rules@.len() && spec_first_match(
            rules_view(rules@),
            host@,
            path@,
        ) == Some(i as int),
        r is None ==> spec_first_match(rules_view(rules@), host@, path@) is None,
{
    let mut i: usize = 0;
    while i < rules.len()
        invariant
            i <= rules@.len(),
            forall|j: int| 0 <= j < i ==> !rule_matches(rules_view(rules@)[j], host@, path@),
        decreases rules@.len() - i,
    {
        proof {
            assert(rules_view(rules@)[i as int] == rules@[i as int]@);
        }
        if rule_applies(&rules[i], host, path) {
            proof {
                lemma_first_match_from(rules_view(rules@), host@, path@, 0);
            }
            return Some(i);
        }
        i = i + 1;
    }
    proof {
        lemma_first_match_from(rules_view(rules@), host@, path@, 0);
    }
    None
}

/// The target path after a rule applies: `replace_path` (when set)
/// followed by the part of the path after the matched prefix; otherwise
/// the path itself.
pub open spec fn spec_new_path(r: RuleModel, path: Seq<u8>) -> Seq<u8> {
    match r.replace_path {
        Some(rp) => rp + path.skip(r.match_path.len() as int),
        None => path,
    }
}

/// The request line with its target replaced by `new_path`; everything
/// before the first space and after the second is untouched.
pub open spec fn spec_rewritten_line(line: Seq<u8>, new_path: Seq<u8>) -> Seq<u8> {
    match find_from(line, 0, 32) {
        Some(i) => match find_from(line, i + 1, 32) {
            Some(j) => line.subrange(0, i + 1) + new_path + line.subrange(j, line.len() as int),
            None => line,
        },
        None => line,
    }
}

/// The host a parsed request is addressed to: its Host header when
/// present, else the domain the client asked for at the TLS layer.
pub open spec fn spec_req_host(host: Option<Seq<u8>>, sni: Seq<u8>) -> Seq<u8> {
    match host {
        Some(h) => h,
        None => sni,
    }
}

/// Ghost model of a routing decision.
pub struct RouteModel {
    pub redirect: bool,
    pub host: Seq<u8>,
    pub port: u16,
    pub data: Seq<u8>,
}

/// Where one request goes and with which bytes. A request whose head does
/// not parse, or which no rule matches, is relayed untouched to its
/// original host; a matched request goes to the rule's target, its bytes
/// changed only when the rule replaces the path prefix.
pub open spec fn spec_route_request(rules: Seq<RuleModel>, sni: Seq<u8>, raw: Seq<u8>) -> RouteModel {
    match spec_parse_head(raw) {
        None => RouteModel { redirect: false, host: sni, port: HTTPS_PORT, data: raw },
        Some(h) => {
            let host = spec_req_host(h.host, sni);
            match spec_first_match(rules, host, h.target) {
                None => RouteModel { redirect: false, host: host, port: HTTPS_PORT, data: raw },
                Some(k) => {
                    let rl = rules[k];
                    let data = match rl.replace_path {
                        None => raw,
                        Some(_) => spec_rewritten_line(
                            raw.subrange(0, h.line_len),
                            spec_new_path(rl, h.target),
                        ) + raw.skip(h.line_len),
                    };
                    RouteModel {
                        redirect: true,
                        host: rl.target_host,
                        port: rl.target_port,
                        data,
                    }
                },
            }
        },
    }
}

/// A routing decision: the connection target for this request and the
/// bytes to forward there.
pub struct RouteDecision {
    pub redirect: bool,
    pub host: Vec<u8>,
    pub port: u16,
    pub data: Vec<u8>,
}

impl View for RouteDecision {
    type V = RouteModel;

    open spec fn view(&self) -> RouteModel {
        RouteModel { redirect: self.redirect, host: self.host@, port: self.port, data: self.data@ }
    }
}

/// Route one request: `sni` is the domain the client asked for at the TLS
/// layer, `raw` the decrypted request bytes as the client sent them.
pub fn route_request(rules: &Vec<RedirectRule>, sni: &Vec<u8>, raw: &Vec<u8>) -> (d: RouteDecision)
    ensures
        d@ == spec_route_request(rules_view(rules@), sni@, raw@),
{
    let n = raw.len();
    let e = match scan_head_end(raw, 0) {
        None => {
            return RouteDecision {
                redirect: false,
                host: copy_vec(sni),
                port: HTTPS_PORT,
                data: copy_vec(raw),
            };
        },
        Some(e) => e,
    };
    let le = match scan_crlf(raw, 0) {
        None => {
            return RouteDecision {
                redirect: false,
                host: copy_vec(sni),
                port: HTTPS_PORT,
                data: copy_vec(raw),
            };
        },
        Some(le) => le,
    };
    proof {
        crate::http::lemma_find_crlf(raw@, 0);
        crate::http::lemma_find_head_end(raw@, 0);
        assert(crate::http::crlf_at(raw@, e as int));
        assert(le <= e);
    }
    let line = subvec(raw, 0, le);
    let (i, j) = match request_line_splits(&line) {
        None => {
            return RouteDecision {
                redirect: false,
                host: copy_vec(sni),
                port: HTTPS_PORT,
                data: copy_vec(raw),
            };
        },
        Some(ij) => ij,
    };
    let target = subvec(&line, i + 1, j);
    let host = match find_host(raw, le + 2, e + 2) {
        Some(hv) => hv,
        None => copy_vec(sni),
    };
    proof {
        assert(spec_parse_head(raw@) matches Some(m) && m.target == target@ && m.line_len == le
            && spec_req_host(m.host, sni@) == host@);
    }
    match find_rule(rules, &host, &target) {
        None => RouteDecision {
            redirect: false,
            host,
            port: HTTPS_PORT,
            data: copy_vec(raw),
        },
        Some(k) => {
            proof {
                lemma_first_match_from(rules_view(rules@), host@, target@, 0);
                assert(rules_view(rules@)[k as int] == rules@[k as int]@);
            }
            let rule = &rules[k];
            match &rule.replace_path {
                None => RouteDecision {
                    redirect: true,
                    host: copy_vec(&rule.target_host),
                    port: rule.target_port,
                    data: copy_vec(raw),
                },
                Some(rp) => {
                    let mp_len = rule.match_path.len();
                    let mut np = copy_vec(rp);
                    let suffix = subvec(&target, mp_len, target.len());
                    append_to(&mut np, &suffix);
                    proof {
                        assert(target@.subrange(mp_len as int, target@.len() as int) =~= target@.skip(
                            mp_len as int,
                        ));
                        assert(np@ == spec_new_path(rules_view(rules@)[k as int], target@));
                    }
                    let mut data = subvec(&line, 0, i + 1);
                    append_to(&mut data, &np);
                    let tail1 = subvec(&line, j, line.len());
                    append_to(&mut data, &tail1);
                    let tail2 = subvec(raw, le, n);
                    append_to(&mut data, &tail2);
                    proof {
                        assert(raw@.subrange(le as int, n as int) =~= raw@.skip(le as int));
                        assert(data@ =~= spec_rewritten_line(
                            line@,
                            spec_new_path(rules_view(rules@)[k as int], target@),
                        ) + raw@.skip(le as int));
                    }
                    RouteDecision {
                        redirect: true,
                        host: copy_vec(&rule.target_host),
                        port: rule.target_port,
                        data,
                    }
                },
            }
        },
    }
}

/// Responses are never rewritten: what the upstream answered is handed to
/// the client byte for byte.
pub fn relay_response(data: &Vec<u8>) -> (r: Vec<u8>)
    ensures
        r@ == data@,
{
    copy_vec(data)
}

/// Relay transparency: when the request's head does not even parse, or no
/// rule matches its host and path, the routed bytes are byte-identical to
/// what the client sent, bound for the original host on the standard TLS
/// port.
pub proof fn lemma_relay_transparency(rules: Seq<RuleModel>, sni: Seq<u8>, raw: Seq<u8>)
    requires
        spec_parse_head(raw) matches Some(h) ==> spec_first_match(
            rules,
            spec_req_host(h.host, sni),
            h.target,
        ) is None,
    ensures
        !spec_route_request(rules, sni, raw).redirect,
        spec_route_request(rules, sni, raw).data == raw,
        spec_route_request(rules, sni, raw).port == HTTPS_PORT,
        spec_parse_head(raw) matches Some(h) ==> spec_route_request(rules, sni, raw).host
            == spec_req_host(h.host, sni),
        spec_parse_head(raw) is None ==> spec_route_request(rules, sni, raw).host == sni,
{
}

/// Rewrite correctness: when some rule matches the request's host and
/// path, the request goes to the first matching rule's target host and
/// port, and — for a rule that does not replace the path — the bytes are
/// forwarded unchanged, the path preserved.
pub proof fn lemma_rewrite_correctness(rules: Seq<RuleModel>, sni: Seq<u8>, raw: Seq<u8>, k: int)
    requires
        spec_parse_head(raw) is Some,
        spec_first_match(
            rules,
            spec_req_host(spec_parse_head(raw).unwrap().host, sni),
            spec_parse_head(raw).unwrap().target,
        ) == Some(k),
    ensures
        spec_route_request(rules, sni, raw).redirect,
        spec_route_request(rules, sni, raw).host == rules[k].target_host,
        spec_route_request(rules, sni, raw).port == rules[k].target_port,
        rules[k].replace_path is None ==> spec_route_request(rules, sni, raw).data == raw,
        0 <= k < rules.len() && rule_matches(
            rules[k],
            spec_req_host(spec_parse_head(raw).unwrap().host, sni),
            spec_parse_head(raw).unwrap().target,
        ),
{
    lemma_first_match_from(
        rules,
        spec_req_host(spec_parse_head(raw).unwrap().host, sni),
        spec_parse_head(raw).unwrap().target,
        0,
    );
}

} // verus!
