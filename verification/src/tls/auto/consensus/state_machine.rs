//! The state machine that applies the entries of the log.
use vstd::prelude::*;
use vstd::string::StringExecFns;

use crate::rules::matcher::{lemma_model_combined, models, Matcher, SpecMatcher};
use crate::tls::auto::challenges::{
    clone_pairs, collected, distinct_keys, entries_map, pair_views, ChallengeList, ChallengeState,
    SpecChallengeState,
};
use crate::tls::auto::consensus::{Action, Request};

verus! {

/// What applying an entry asks of the rest of the load balancer.
#[derive(Debug)]
pub enum StateEffect {
    /// Request a certificate for the domain, without announcing the request
    /// to the cluster again.
    RequestCertificate(String),
    /// Set the rule that answers the challenge of a domain: its name,
    /// priority and matcher; it forwards to the internal ACME service.
    SetRule(String, u32, Matcher),
    /// Remove the rule of the given name.
    RemoveRule(String),
}

/// The name of the rule that answers the challenge of `domain`.
pub open spec fn rule_name(domain: Seq<char>) -> Seq<char> {
    "ACME-"@ + domain
}

/// The matcher of the rule that answers the challenge of `domain`: the
/// domain and a path under `/.well-known/`.
pub open spec fn challenge_matcher(domain: Seq<char>) -> SpecMatcher {
    SpecMatcher::And(seq![SpecMatcher::Domain(domain), SpecMatcher::PathPrefix("/.well-known/"@)])
}

/// The challenges after applying an entry for `domain`.
pub open spec fn challenges_after(
    m: Map<Seq<char>, SpecChallengeState>,
    domain: Seq<char>,
    action: Action,
) -> Map<Seq<char>, SpecChallengeState> {
    match action {
        Action::MissingCert => m.insert(domain, SpecChallengeState::Pending),
        Action::VerifyingData(d) => m.insert(domain, SpecChallengeState::Data(pair_views(d@))),
        Action::Failed => m.remove(domain),
        Action::Finish => m.insert(domain, SpecChallengeState::Finished),
    }
}

/// Whether `e` is what applying an entry for `domain` asks for.
pub open spec fn effect_of(domain: Seq<char>, action: Action, e: StateEffect) -> bool {
    match action {
        Action::MissingCert => e matches StateEffect::RequestCertificate(d) && d@ == domain,
        Action::VerifyingData(_) => e matches StateEffect::SetRule(name, priority, matcher)
            && name@ == rule_name(domain) && priority == 100 && matcher@ == challenge_matcher(domain),
        Action::Failed | Action::Finish => e matches StateEffect::RemoveRule(name) && name@ == rule_name(
            domain,
        ),
    }
}

/// The rule that verifying data sets for a domain is the rule that a failed
/// or finished challenge of that domain removes.
pub proof fn lemma_challenge_rule_is_removed(
    domain: Seq<char>,
    verifying: Action,
    ending: Action,
    set: StateEffect,
    remove: StateEffect,
)
    requires
        verifying is VerifyingData,
        ending is Failed || ending is Finish,
        effect_of(domain, verifying, set),
        effect_of(domain, ending, remove),
    ensures
        set matches StateEffect::SetRule(n1, _, _) && remove matches StateEffect::RemoveRule(n2)
            && n1@ == n2@,
{
}

/// Applying an entry changes the challenge of its own domain only.
pub proof fn lemma_other_domains_unchanged(
    m: Map<Seq<char>, SpecChallengeState>,
    domain: Seq<char>,
    action: Action,
    other: Seq<char>,
)
    requires
        other != domain,
    ensures
        challenges_after(m, domain, action).contains_key(other) == m.contains_key(other),
        m.contains_key(other) ==> challenges_after(m, domain, action)[other] == m[other],
{
}

/// After an entry, the domain's challenge is what the entry says: pending
/// for a missing certificate, the data for verifying data, finished for a
/// finished challenge, and gone for a failed one.
pub proof fn lemma_domain_state_after(
    m: Map<Seq<char>, SpecChallengeState>,
    domain: Seq<char>,
    action: Action,
)
    ensures
        match action {
            Action::MissingCert => challenges_after(m, domain, action)[domain]
                == SpecChallengeState::Pending,
            Action::VerifyingData(d) => challenges_after(m, domain, action)[domain]
                == SpecChallengeState::Data(pair_views(d@)),
            Action::Finish => challenges_after(m, domain, action)[domain]
                == SpecChallengeState::Finished,
            Action::Failed => !challenges_after(m, domain, action).contains_key(domain),
        },
{
}

/// The state of the ACME challenges as the cluster agreed on it.
pub struct StateMachine {
    last_applied_log: u64,
    challenges: ChallengeList,
}

impl StateMachine {
    /// The index of the last applied entry.
    pub closed spec fn spec_last_log(&self) -> u64 {
        self.last_applied_log
    }

    /// The challenges, by domain.
    pub closed spec fn spec_challenges(&self) -> Map<Seq<char>, SpecChallengeState> {
        self.challenges@
    }

    /// Whether the challenge list is well formed.
    pub closed spec fn wf(&self) -> bool {
        self.challenges.wf()
    }

    /// Creates the state machine over the given challenges, with no entry
    /// applied yet.
    pub fn new(challenges: ChallengeList) -> (res: Self)
        requires
            challenges.wf(),
        ensures
            res.wf(),
            res.spec_last_log() == 0,
            res.spec_challenges() == challenges@,
    {
        Self { last_applied_log: 0, challenges }
    }

    /// Records the index of the last applied entry.
    pub fn update_last_log(&mut self, value: u64)
        ensures
            final(self).spec_last_log() == value,
            final(self).spec_challenges() == old(self).spec_challenges(),
            final(self).wf() == old(self).wf(),
    {
        self.last_applied_log = value;
    }

    /// The index of the last applied entry.
    pub fn last_log(&self) -> (res: u64)
        ensures
            res == self.spec_last_log(),
    {
        self.last_applied_log
    }

    /// Replaces the challenges by the given entries; of several entries for
    /// one domain the last counts.
    pub fn replace_challenges(&mut self, map: Vec<(String, ChallengeState)>)
        ensures
            final(self).wf(),
            final(self).spec_challenges() == collected(map@),
            final(self).spec_last_log() == old(self).spec_last_log(),
    {
        self.challenges.set_map(map);
    }

    /// Copies out the challenges, one entry for each domain.
    pub fn clone_challenges(&self) -> (res: Vec<(String, ChallengeState)>)
        requires
            self.wf(),
        ensures
            distinct_keys(res@),
            entries_map(res@) == self.spec_challenges(),
    {
        self.challenges.clone_map()
    }

    /// The name of the rule that answers the challenge of `domain`.
    pub fn generate_rule_name(domain: &str) -> (res: String)
        ensures
            res@ == rule_name(domain@),
    {
        let mut name = String::from_str("ACME-");
        name.append(domain);
        name
    }

    /// Applies an entry: updates the domain's challenge and says what the
    /// rest of the load balancer has to do.
    pub fn apply(&mut self, data: &Request) -> (res: StateEffect)
        requires
            old(self).wf(),
        ensures
            final(self).wf(),
            final(self).spec_challenges() == challenges_after(
                old(self).spec_challenges(),
                data.domain_name@,
                data.action,
            ),
            final(self).spec_last_log() == old(self).spec_last_log(),
            effect_of(data.domain_name@, data.action, res),
    {
        let domain = data.domain_name.clone();
        match &data.action {
            Action::MissingCert => {
                self.challenges.update_state(domain.clone(), ChallengeState::Pending);
                StateEffect::RequestCertificate(domain)
            },
            Action::VerifyingData(d) => {
                self.challenges.update_state(domain.clone(), ChallengeState::Data(clone_pairs(d)));
                let well_known = String::from_str("/.well-known/");
                let parts = vec![Matcher::Domain(domain.clone()), Matcher::PathPrefix(well_known)];
                proof {
                    lemma_model_combined(parts);
                    assert(models(parts@) =~= seq![
                        SpecMatcher::Domain(data.domain_name@),
                        SpecMatcher::PathPrefix("/.well-known/"@),
                    ]);
                }
                let matcher = Matcher::And(parts);
                let name = Self::generate_rule_name(domain.as_str());
                StateEffect::SetRule(name, 100, matcher)
            },
            Action::Failed => {
                self.challenges.remove_state(domain.as_str());
                StateEffect::RemoveRule(Self::generate_rule_name(domain.as_str()))
            },
            Action::Finish => {
                self.challenges.update_state(domain.clone(), ChallengeState::Finished);
                StateEffect::RemoveRule(Self::generate_rule_name(domain.as_str()))
            },
        }
    }
}

} // verus!
