//! Named link-handling rules with match and substitution behaviour, the
//! rule table with its inference precedence order, and the resolution of
//! raw link declarations against it.

use vstd::prelude::*;

use crate::error::{Error, ErrorKind};
use crate::i18n::LangId;
use crate::pattern::{
    caps_view, pairs_view, re_caps, re_match, re_named_caps, re_ok, regex_captures,
    regex_is_match, regex_is_valid, regex_named_captures,
};
use crate::raw::RawLinkItem;
use crate::strutil::{push_char, spec_has_prefix, spec_nat_to_string, u64_to_string};
use crate::tengine::{
    ctx_map, lemma_ctx_map_push, simple_template_render, spec_subst,
};

verus! {

/// A resolved outbound link: its per-locale labels, final URI, the name
/// of the rule it came from (if any), and the variables its captures
/// bound.
#[derive(Debug)]
pub struct Link {
    pub label: Vec<(LangId, String)>,
    pub uri: String,
    pub rule: Option<String>,
    pub variables: Vec<(String, String)>,
}

/// A named link-handling rule from the stock configuration.
#[derive(Debug)]
pub struct StockLinkRule {
    pub name: String,
    pub icon: String,
    pub label: Vec<(LangId, String)>,
    /// The match pattern, a regular expression; `None` matches anything.
    pub pattern: Option<String>,
    pub www_href: String,
    pub inference: bool,
    pub passthrough: bool,
}

/// The texts of a label map.
pub open spec fn label_view(l: Seq<(LangId, String)>) -> Seq<(LangId, Seq<char>)> {
    l.map_values(|p: (LangId, String)| (p.0, p.1@))
}

fn clone_label(l: &Vec<(LangId, String)>) -> (r: Vec<(LangId, String)>)
    ensures
        label_view(r@) == label_view(l@),
{
    let mut out: Vec<(LangId, String)> = Vec::new();
    let mut i: usize = 0;
    while i < l.len()
        invariant
            0 <= i <= l@.len(),
            out@.len() == i,
            forall|j: int| 0 <= j < i ==> (#[trigger] out@[j]).0 == l@[j].0 && out@[j].1@
                == l@[j].1@,
        decreases l@.len() - i,
    {
        let s = l[i].1.clone();
        out.push((l[i].0, s));
        i = i + 1;
    }
    proof {
        assert(label_view(out@) =~= label_view(l@));
    }
    out
}

/// The variable name that the capture group at a position binds: an
/// underscore followed by the position in decimal.
pub open spec fn spec_pos_key(i: nat) -> Seq<char> {
    seq!['_'] + spec_nat_to_string(i)
}

fn pos_key(i: usize) -> (r: String)
    ensures
        r@ == spec_pos_key(i as nat),
{
    let mut s = String::new();
    push_char(&mut s, '_');
    let digits = u64_to_string(i as u64);
    s.append(digits.as_str());
    proof {
        assert(Seq::<char>::empty().push('_') =~= seq!['_']);
    }
    s
}

/// The bindings of the first `n` positional capture groups: group `i`
/// binds `_i` when it participated.
pub open spec fn vars_pos(caps: Seq<Option<Seq<char>>>, n: int) -> Map<Seq<char>, Seq<char>>
    decreases n,
{
    if n <= 0 {
        Map::empty()
    } else {
        let m = vars_pos(caps, n - 1);
        match caps[n - 1] {
            Some(t) => m.insert(spec_pos_key((n - 1) as nat), t),
            None => m,
        }
    }
}

/// The bindings of the first `n` named capture groups, layered over `m`.
pub open spec fn vars_named(
    m: Map<Seq<char>, Seq<char>>,
    named: Seq<(Seq<char>, Seq<char>)>,
    n: int,
) -> Map<Seq<char>, Seq<char>>
    decreases n,
{
    if n <= 0 {
        m
    } else {
        vars_named(m, named, n - 1).insert(named[n - 1].0, named[n - 1].1)
    }
}

/// The variables a pattern binds on a matching text: every capture group
/// by its 1-based position (and the whole match as `_0`), then every
/// named group by its name.
pub open spec fn spec_link_vars(pattern: Seq<char>, text: Seq<char>) -> Map<Seq<char>, Seq<char>> {
    vars_named(
        vars_pos(re_caps(pattern, text), re_caps(pattern, text).len() as int),
        re_named_caps(pattern, text),
        re_named_caps(pattern, text).len() as int,
    )
}

/// What a link built by a rule from a URI holds. A passthrough rule
/// echoes the URI with its static labels; a rule without a pattern echoes
/// its substitution target; a rule with a pattern matches, binds its
/// capture variables, and renders its labels and substitution target
/// through the variable substitution.
pub open spec fn spec_built_link(rule: StockLinkRule, uri: Seq<char>, link: Link) -> bool {
    &&& link.rule matches Some(n) && n@ == rule.name@
    &&& if rule.passthrough {
        &&& label_view(link.label@) == label_view(rule.label@)
        &&& link.uri@ == uri
        &&& link.variables@.len() == 0
    } else {
        match rule.pattern {
            None => {
                &&& label_view(link.label@) == label_view(rule.label@)
                &&& link.uri@ == rule.www_href@
                &&& link.variables@.len() == 0
            },
            Some(p) => {
                let vars = spec_link_vars(p@, uri);
                &&& re_match(p@, uri)
                &&& ctx_map(link.variables@) == vars
                &&& link.uri@ == spec_subst(rule.www_href@, vars)
                &&& link.label@.len() == rule.label@.len()
                &&& forall|i: int| 0 <= i < rule.label@.len() ==> (#[trigger] link.label@[i]).0
                    == rule.label@[i].0 && link.label@[i].1@ == spec_subst(rule.label@[i].1@, vars)
            },
        }
    }
}

impl StockLinkRule {
    /// The rule's pattern, when it has one, compiles.
    pub open spec fn wf(&self) -> bool {
        self.pattern matches Some(p) ==> re_ok(p@)
    }

    /// Whether the rule matches the URI; a rule without a pattern matches
    /// anything.
    pub open spec fn spec_match_uri(&self, uri: Seq<char>) -> bool {
        match self.pattern {
            Some(p) => re_match(p@, uri),
            None => true,
        }
    }

    /// Whether this rule accepts the URI.
    pub fn match_uri(&self, uri: &str) -> (r: bool)
        requires
            self.wf(),
        ensures
            r == self.spec_match_uri(uri@),
    {
        match &self.pattern {
            Some(p) => regex_is_match(p.as_str(), uri),
            None => true,
        }
    }

    /// Build a link from a URI through this rule. A passthrough rule
    /// echoes the URI; otherwise the URI must match the rule's pattern
    /// (if it has one), whose captures drive the substitution of the
    /// labels and the target.
    pub fn build_link(&self, uri: &str) -> (r: Result<Link, Error>)
        requires
            self.wf(),
        ensures
            r matches Ok(link) ==> spec_built_link(*self, uri@, link),
            (r is Ok) == self.spec_build_ok(uri@),
            r matches Err(e) ==> e.kind == ErrorKind::InvalidArgument,
    {
        if self.passthrough {
            Ok(
                Link {
                    label: clone_label(&self.label),
                    uri: uri.to_owned(),
                    rule: Some(self.name.clone()),
                    variables: Vec::new(),
                },
            )
        } else {
            match &self.pattern {
                None => Ok(
                    Link {
                        label: clone_label(&self.label),
                        uri: self.www_href.clone(),
                        rule: Some(self.name.clone()),
                        variables: Vec::new(),
                    },
                ),
                Some(p) => {
                    let groups = match regex_captures(p.as_str(), uri) {
                        Some(groups) => groups,
                        None => {
                            return Err(
                                Error::new(
                                    ErrorKind::InvalidArgument,
                                    "failed to parse the URI by the rule: the pattern does not match",
                                ),
                            );
                        },
                    };
                    let ghost gcaps = re_caps(p@, uri@);
                    let ghost gnamed = re_named_caps(p@, uri@);
                    let ghost gvars = spec_link_vars(p@, uri@);
                    let mut variables: Vec<(String, String)> = Vec::new();
                    let mut i: usize = 0;
                    while i < groups.len()
                        invariant
                            0 <= i <= groups@.len(),
                            caps_view(groups@) == gcaps,
                            ctx_map(variables@) == vars_pos(gcaps, i as int),
                        decreases groups@.len() - i,
                    {
                        let ghost prev = variables@;
                        match &groups[i] {
                            Some(g) => {
                                let key = pos_key(i);
                                let text = g.clone();
                                proof {
                                    lemma_ctx_map_push(prev, (key, text));
                                    assert(gcaps[i as int] == Some(g@));
                                }
                                variables.push((key, text));
                            },
                            None => {
                                proof {
                                    assert(gcaps[i as int] is None);
                                }
                            },
                        }
                        i = i + 1;
                    }
                    let named = match regex_named_captures(p.as_str(), uri) {
                        Some(named) => named,
                        None => {
                            proof {
                                assert(false);
                            }
                            return Err(
                                Error::new(ErrorKind::InvalidArgument, "the pattern does not match"),
                            );
                        },
                    };
                    let mut j: usize = 0;
                    while j < named.len()
                        invariant
                            0 <= j <= named@.len(),
                            pairs_view(named@) == gnamed,
                            ctx_map(variables@) == vars_named(
                                vars_pos(gcaps, gcaps.len() as int),
                                gnamed,
                                j as int,
                            ),
                        decreases named@.len() - j,
                    {
                        let ghost prev = variables@;
                        let key = named[j].0.clone();
                        let text = named[j].1.clone();
                        proof {
                            lemma_ctx_map_push(prev, (key, text));
                            assert(gnamed[j as int] == (key@, text@));
                        }
                        variables.push((key, text));
                        j = j + 1;
                    }
                    proof {
                        assert(ctx_map(variables@) == gvars);
                    }
                    let mut label: Vec<(LangId, String)> = Vec::new();
                    let mut m: usize = 0;
                    while m < self.label.len()
                        invariant
                            0 <= m <= self.label@.len(),
                            label@.len() == m,
                            ctx_map(variables@) == gvars,
                            forall|l: int| 0 <= l < m ==> (#[trigger] label@[l]).0
                                == self.label@[l].0 && label@[l].1@ == spec_subst(
                                self.label@[l].1@,
                                gvars,
                            ),
                        decreases self.label@.len() - m,
                    {
                        let rendered = simple_template_render(self.label[m].1.as_str(), &variables);
                        label.push((self.label[m].0, rendered));
                        m = m + 1;
                    }
                    let final_uri = simple_template_render(self.www_href.as_str(), &variables);
                    Ok(
                        Link {
                            label,
                            uri: final_uri,
                            rule: Some(self.name.clone()),
                            variables,
                        },
                    )
                },
            }
        }
    }

    /// When building a link through this rule succeeds: always, unless
    /// the rule has a pattern it must match and the URI does not match.
    pub open spec fn spec_build_ok(&self, uri: Seq<char>) -> bool {
        self.passthrough || match self.pattern {
            None => true,
            Some(p) => re_match(p@, uri),
        }
    }
}

/// The position of the last rule bearing a name, or -1: a rule added
/// later under the same name shadows the earlier one.
pub open spec fn rule_index_of(rs: Seq<StockLinkRule>, name: Seq<char>) -> int
    decreases rs.len(),
{
    if rs.len() == 0 {
        -1
    } else if rs.last().name@ == name {
        rs.len() - 1
    } else {
        rule_index_of(rs.drop_last(), name)
    }
}

/// The position in the inference order of the first rule that accepts
/// the URI, or -1.
pub open spec fn spec_first_inference(
    rs: Seq<StockLinkRule>,
    inf: Seq<usize>,
    uri: Seq<char>,
) -> int
    decreases inf.len(),
{
    if inf.len() == 0 {
        -1
    } else if rs[inf[0] as int].spec_match_uri(uri) {
        0
    } else {
        let r = spec_first_inference(rs, inf.drop_first(), uri);
        if r == -1 {
            -1
        } else {
            r + 1
        }
    }
}

/// How a raw link declaration resolves against a rule table. An explicit
/// name starting with the reserved marker refers to a rule, which must
/// exist and accept the URI; any other explicit name labels the URI
/// verbatim under the default locale; a bare URI goes to the first
/// inference rule that accepts it.
pub open spec fn spec_link_resolution(
    rules: Seq<StockLinkRule>,
    inf: Seq<usize>,
    raw_link: RawLinkItem,
    r: Result<Link, Error>,
) -> bool {
    match raw_link {
        RawLinkItem::Custom { name, uri } => {
            if spec_has_prefix(name@, "."@) {
                let idx = rule_index_of(rules, name@.skip(1));
                if idx == -1 {
                    r matches Err(e) && e.kind == ErrorKind::NotExist
                } else if !rules[idx].spec_match_uri(uri@) {
                    r matches Err(e) && e.kind == ErrorKind::InvalidArgument
                } else {
                    r matches Ok(link) && spec_built_link(rules[idx], uri@, link)
                }
            } else {
                r matches Ok(link) && link.label@.len() == 1 && link.label@[0].0 == LangId::EnUs
                    && link.label@[0].1@ == name@ && link.uri@ == uri@ && link.rule is None
                    && link.variables@.len() == 0
            }
        },
        RawLinkItem::Auto(uri) => {
            let f = spec_first_inference(rules, inf, uri@);
            if f == -1 {
                r matches Err(e) && e.kind == ErrorKind::NotExist
            } else {
                r matches Ok(link) && spec_built_link(rules[inf[f] as int], uri@, link)
            }
        },
    }
}

/// Whether a raw link declaration resolves successfully against a rule
/// table: a marker reference needs an existing rule that accepts the URI,
/// a literal label always resolves, and a bare URI needs an inference
/// rule that accepts it.
pub open spec fn spec_link_ok(
    rules: Seq<StockLinkRule>,
    inf: Seq<usize>,
    raw_link: RawLinkItem,
) -> bool {
    match raw_link {
        RawLinkItem::Custom { name, uri } => {
            if spec_has_prefix(name@, "."@) {
                let idx = rule_index_of(rules, name@.skip(1));
                idx != -1 && rules[idx].spec_match_uri(uri@)
            } else {
                true
            }
        },
        RawLinkItem::Auto(uri) => spec_first_inference(rules, inf, uri@) != -1,
    }
}

/// A resolution succeeds exactly when `spec_link_ok` holds of its
/// declaration.
pub proof fn lemma_resolution_ok(
    rules: Seq<StockLinkRule>,
    inf: Seq<usize>,
    raw_link: RawLinkItem,
    r: Result<Link, Error>,
)
    requires
        spec_link_resolution(rules, inf, raw_link, r),
    ensures
        (r is Ok) == spec_link_ok(rules, inf, raw_link),
{
    match raw_link {
        RawLinkItem::Custom { name, uri } => {},
        RawLinkItem::Auto(uri) => {},
    }
}

/// A failed resolution reports a missing rule or a refused argument.
pub proof fn lemma_resolution_err_kind(
    rules: Seq<StockLinkRule>,
    inf: Seq<usize>,
    raw_link: RawLinkItem,
    e: Error,
)
    requires
        spec_link_resolution(rules, inf, raw_link, Err(e)),
    ensures
        e.kind == ErrorKind::NotExist || e.kind == ErrorKind::InvalidArgument,
{
    match raw_link {
        RawLinkItem::Custom { name, uri } => {},
        RawLinkItem::Auto(uri) => {},
    }
}

/// The position of the first declaration in a list that fails to
/// resolve, or -1 when every one resolves.
pub open spec fn spec_first_bad_link(
    rules: Seq<StockLinkRule>,
    inf: Seq<usize>,
    links: Seq<RawLinkItem>,
) -> int
    decreases links.len(),
{
    if links.len() == 0 {
        -1
    } else if !spec_link_ok(rules, inf, links[0]) {
        0
    } else {
        let r = spec_first_bad_link(rules, inf, links.drop_first());
        if r == -1 {
            -1
        } else {
            r + 1
        }
    }
}

/// Where the first failing declaration sits, from what the list shows.
pub proof fn lemma_first_bad_link_at(
    rules: Seq<StockLinkRule>,
    inf: Seq<usize>,
    links: Seq<RawLinkItem>,
    j: int,
)
    requires
        0 <= j < links.len(),
        !spec_link_ok(rules, inf, links[j]),
        forall|i: int| 0 <= i < j ==> spec_link_ok(rules, inf, #[trigger] links[i]),
    ensures
        spec_first_bad_link(rules, inf, links) == j,
    decreases j,
{
    if j > 0 {
        assert(links.drop_first()[j - 1] == links[j]);
        assert forall|i: int| 0 <= i < j - 1 implies spec_link_ok(
            rules,
            inf,
            #[trigger] links.drop_first()[i],
        ) by {
            assert(links.drop_first()[i] == links[i + 1]);
        }
        lemma_first_bad_link_at(rules, inf, links.drop_first(), j - 1);
    }
}

/// A list whose every declaration resolves has no failing position.
pub proof fn lemma_first_bad_link_none(
    rules: Seq<StockLinkRule>,
    inf: Seq<usize>,
    links: Seq<RawLinkItem>,
)
    requires
        forall|i: int| 0 <= i < links.len() ==> spec_link_ok(rules, inf, #[trigger] links[i]),
    ensures
        spec_first_bad_link(rules, inf, links) == -1,
    decreases links.len(),
{
    if links.len() > 0 {
        assert forall|i: int| 0 <= i < links.len() - 1 implies spec_link_ok(
            rules,
            inf,
            #[trigger] links.drop_first()[i],
        ) by {
            assert(links.drop_first()[i] == links[i + 1]);
        }
        lemma_first_bad_link_none(rules, inf, links.drop_first());
    }
}

/// The table of link rules: every rule by insertion order, plus the
/// inference precedence order over the inference-eligible ones.
pub struct LinkRuleManager {
    rules: Vec<StockLinkRule>,
    inference_rules: Vec<usize>,
}

impl Default for LinkRuleManager {
    /// An empty rule table.
    fn default() -> (r: Self)
        ensures
            r.wf(),
            r.spec_rules().len() == 0,
            r.spec_inference().len() == 0,
    {
        LinkRuleManager { rules: Vec::new(), inference_rules: Vec::new() }
    }
}

impl LinkRuleManager {
    /// The rules, in insertion order; a later rule shadows an earlier one
    /// of the same name.
    pub closed spec fn spec_rules(&self) -> Seq<StockLinkRule> {
        self.rules@
    }

    /// The inference precedence order, as positions among the rules.
    pub closed spec fn spec_inference(&self) -> Seq<usize> {
        self.inference_rules@
    }

    /// Every stored pattern compiles, and the inference order holds
    /// positions of inference-eligible rules; a non-passthrough one among
    /// them carries a pattern.
    pub closed spec fn wf(&self) -> bool {
        &&& forall|i: int| 0 <= i < self.rules@.len() ==> (#[trigger] self.rules@[i]).wf()
        &&& forall|j: int|
            0 <= j < self.inference_rules@.len() ==> {
                let idx = (#[trigger] self.inference_rules@[j]) as int;
                &&& idx < self.rules@.len()
                &&& self.rules@[idx].inference
                &&& (!self.rules@[idx].passthrough ==> self.rules@[idx].pattern is Some)
            }
    }

    /// Add a rule to the table. The rule's pattern must compile, and an
    /// inference-eligible, non-passthrough rule must carry a pattern:
    /// first-match inference needs a discriminator. A refused rule leaves
    /// the table untouched: no partial rule table persists. An
    /// inference-eligible passthrough rule enters the inference order
    /// without a pattern and matches anything there.
    pub fn add_rule(&mut self, rule: StockLinkRule) -> (r: Result<(), Error>)
        requires
            old(self).wf(),
        ensures
            final(self).wf(),
            (match rule.pattern {
                Some(p) => !re_ok(p@),
                None => false,
            }) ==> (r matches Err(e) && e.kind == ErrorKind::InvalidArgument && *final(self)
                == *old(self)),
            (rule.inference && !rule.passthrough && rule.pattern is None) ==> (r matches Err(e)
                && e.kind == ErrorKind::InvalidArgument && *final(self) == *old(self)),
            ((match rule.pattern {
                Some(p) => re_ok(p@),
                None => true,
            }) && !(rule.inference && !rule.passthrough && rule.pattern is None)) ==> {
                &&& r is Ok
                &&& final(self).spec_rules() == old(self).spec_rules().push(rule)
                &&& if rule.inference {
                    final(self).spec_inference() == old(self).spec_inference().push(
                        old(self).spec_rules().len() as usize,
                    )
                } else {
                    final(self).spec_inference() == old(self).spec_inference()
                }
            },
    {
        if let Some(p) = &rule.pattern {
            if !regex_is_valid(p.as_str()) {
                return Err(Error::new(ErrorKind::InvalidArgument, "the rule's pattern does not compile"));
            }
        }
        if rule.inference && !rule.passthrough && rule.pattern.is_none() {
            return Err(
                Error::new(
                    ErrorKind::InvalidArgument,
                    "a pattern is required for an inference rule",
                ),
            );
        }
        let pos = self.rules.len();
        let is_inference = rule.inference;
        self.rules.push(rule);
        if is_inference {
            self.inference_rules.push(pos);
        }
        Ok(())
    }

    /// Resolve a raw link declaration. An explicit name starting with the
    /// reserved marker refers to a rule, which must exist and accept the
    /// URI; any other explicit name labels the URI verbatim under the
    /// default locale; a bare URI goes to the first inference rule that
    /// accepts it.
    #[verifier::loop_isolation(false)]
    pub fn build_link(&self, raw_link: RawLinkItem) -> (r: Result<Link, Error>)
        requires
            self.wf(),
        ensures
            spec_link_resolution(self.spec_rules(), self.spec_inference(), raw_link, r),
    {
        match &raw_link {
            RawLinkItem::Custom { name, uri } => {
                if crate::strutil::has_prefix(name.as_str(), ".") {
                    proof {
                        reveal_strlit(".");
                        assert(name@.len() >= 1);
                    }
                    let len = name.as_str().unicode_len();
                    let rule_name = name.as_str().substring_char(1, len);
                    proof {
                        assert(name@.subrange(1, name@.len() as int) =~= name@.skip(1));
                    }
                    match self.find_rule(rule_name) {
                        Some(rule) => {
                            let ghost idx = rule_index_of(self.spec_rules(), name@.skip(1));
                            proof {
                                assert(self.rules@[idx].wf());
                            }
                            if !rule.match_uri(uri.as_str()) {
                                Err(
                                    Error::new(
                                        ErrorKind::InvalidArgument,
                                        "the URI does not match the rule",
                                    ),
                                )
                            } else {
                                rule.build_link(uri.as_str())
                            }
                        },
                        None => Err(Error::new(ErrorKind::NotExist, "no link rule of that name")),
                    }
                } else {
                    let mut label: Vec<(LangId, String)> = Vec::new();
                    label.push((LangId::default(), name.clone()));
                    Ok(Link { label, uri: uri.clone(), rule: None, variables: Vec::new() })
                }
            },
            RawLinkItem::Auto(uri) => {
                let mut j: usize = 0;
                while j < self.inference_rules.len()
                    invariant
                        self.wf(),
                        0 <= j <= self.inference_rules@.len(),
                        forall|l: int|
                            0 <= l < j ==> !self.rules@[self.inference_rules@[l] as int]
                                .spec_match_uri(uri@),
                    decreases self.inference_rules@.len() - j,
                {
                    let idx = self.inference_rules[j];
                    proof {
                        assert(self.inference_rules@[j as int] == idx);
                        assert(self.rules@[idx as int].wf());
                    }
                    let rule = &self.rules[idx];
                    if rule.match_uri(uri.as_str()) {
                        proof {
                            lemma_first_inference_at(self.rules@, self.inference_rules@, uri@, j as int);
                        }
                        return rule.build_link(uri.as_str());
                    }
                    j = j + 1;
                }
                proof {
                    lemma_first_inference_none(self.rules@, self.inference_rules@, uri@);
                }
                Err(Error::new(ErrorKind::NotExist, "inference failed: no rule matches the URI"))
            },
        }
    }

    /// The rule of the given name, added last.
    fn find_rule<'a>(&'a self, name: &str) -> (r: Option<&'a StockLinkRule>)
        ensures
            (r is None) == (rule_index_of(self.spec_rules(), name@) == -1),
            r matches Some(rule) ==> 0 <= rule_index_of(self.spec_rules(), name@)
                < self.spec_rules().len() && *rule == self.spec_rules()[rule_index_of(
                self.spec_rules(),
                name@,
            )],
    {
        let mut j: usize = self.rules.len();
        proof {
            assert(self.rules@.take(self.rules@.len() as int) =~= self.rules@);
        }
        while j > 0
            invariant
                0 <= j <= self.rules@.len(),
                rule_index_of(self.rules@, name@) == rule_index_of(self.rules@.take(j as int), name@),
            decreases j,
        {
            if crate::strutil::str_eq(self.rules[j - 1].name.as_str(), name) {
                proof {
                    assert(self.rules@.take(j as int).last() == self.rules@[j - 1]);
                }
                return Some(&self.rules[j - 1]);
            }
            proof {
                assert(self.rules@.take(j as int).last() == self.rules@[j - 1]);
                assert(self.rules@.take(j as int).drop_last() =~= self.rules@.take(j - 1));
            }
            j = j - 1;
        }
        proof {
            assert(self.rules@.take(0) =~= Seq::<StockLinkRule>::empty());
        }
        None
    }
}

proof fn lemma_first_inference_at(
    rs: Seq<StockLinkRule>,
    inf: Seq<usize>,
    uri: Seq<char>,
    j: int,
)
    requires
        0 <= j < inf.len(),
        rs[inf[j] as int].spec_match_uri(uri),
        forall|l: int| 0 <= l < j ==> !rs[inf[l] as int].spec_match_uri(uri),
    ensures
        spec_first_inference(rs, inf, uri) == j,
    decreases j,
{
    if j == 0 {
    } else {
        assert(inf.drop_first()[j - 1] == inf[j]);
        assert forall|l: int| 0 <= l < j - 1 implies !rs[inf.drop_first()[l] as int].spec_match_uri(
            uri,
        ) by {
            assert(inf.drop_first()[l] == inf[l + 1]);
        }
        lemma_first_inference_at(rs, inf.drop_first(), uri, j - 1);
    }
}

proof fn lemma_first_inference_none(rs: Seq<StockLinkRule>, inf: Seq<usize>, uri: Seq<char>)
    requires
        forall|l: int| 0 <= l < inf.len() ==> !rs[inf[l] as int].spec_match_uri(uri),
    ensures
        spec_first_inference(rs, inf, uri) == -1,
    decreases inf.len(),
{
    if inf.len() > 0 {
        assert forall|l: int|
            0 <= l < inf.drop_first().len() implies !rs[inf.drop_first()[l] as int].spec_match_uri(
            uri,
        ) by {
            assert(inf.drop_first()[l] == inf[l + 1]);
        }
        lemma_first_inference_none(rs, inf.drop_first(), uri);
    }
}

} // verus!
