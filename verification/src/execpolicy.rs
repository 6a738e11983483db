//! The execution policy engine: a static classifier deciding whether a
//! concrete command line may run without confirmation.
//!
//! A `Policy` holds its rules in two tiers: rules naming a concrete program
//! first, catch-all rules last, each tier evaluated in order.  The first
//! matching rule determines the `Verdict`; a command matching no rule is
//! `MatchButInconclusive`, never silently `Safe`.  Classification depends
//! only on the command and the loaded rules, never on environment or time.

use vstd::prelude::*;

verus! {

/// The classification of one command line.
#[derive(Clone, Copy, Debug, PartialEq, Eq, Structural)]
pub enum Verdict {
    /// May run unsupervised.
    Safe,
    /// Must never run unsupervised.
    Forbidden,
    /// A rule matched but could not vouch for the command, or no rule
    /// matched at all; the approval gate decides.
    MatchButInconclusive,
}

/// The shape of arguments a rule accepts, after the program name.
#[derive(Clone, Debug, PartialEq, Eq)]
pub enum ArgPattern {
    /// Any arguments, including none.
    AnyArgs,
    /// No arguments at all.
    NoArgs,
    /// Exactly these arguments, in this order.
    ExactArgs(Vec<String>),
    /// These arguments first, in this order, then anything.
    PrefixArgs(Vec<String>),
}

/// A rule for one concrete program name.
#[derive(Clone, Debug, PartialEq, Eq)]
pub struct Rule {
    pub program: String,
    pub args: ArgPattern,
    pub verdict: Verdict,
}

/// A catch-all rule matching any program name.
#[derive(Clone, Debug, PartialEq, Eq)]
pub struct WildcardRule {
    pub args: ArgPattern,
    pub verdict: Verdict,
}

/// The error raised when a rule set fails to load.
#[derive(Clone, Copy, Debug, PartialEq, Eq, Structural)]
pub enum PolicyError {
    /// The rule set classifies a known-bad example as `Safe`.
    BadListViolation,
}

/// An immutable, loaded-once rule set, with the two labeled example lists
/// used for self-verification.
#[derive(Clone, Debug, PartialEq, Eq)]
pub struct Policy {
    /// Rules naming a concrete program; evaluated first, in order.
    pub rules: Vec<Rule>,
    /// Catch-all rules; evaluated last, in order.
    pub wildcard_rules: Vec<WildcardRule>,
    /// Commands expected to classify as `Safe`.
    pub known_good: Vec<Vec<String>>,
    /// Commands that must never classify as `Safe`.
    pub known_bad: Vec<Vec<String>>,
}

/// Whether `args` (the command line after the program name) fits `p`.
pub open spec fn args_match(p: ArgPattern, cmd: Seq<String>) -> bool
    recommends
        cmd.len() >= 1,
{
    match p {
        ArgPattern::AnyArgs => true,
        ArgPattern::NoArgs => cmd.len() == 1,
        ArgPattern::ExactArgs(want) => {
            &&& cmd.len() == want@.len() + 1
            &&& forall|i: int| 0 <= i < want@.len() ==> cmd[i + 1]@ == want@[i]@
        },
        ArgPattern::PrefixArgs(want) => {
            &&& cmd.len() >= want@.len() + 1
            &&& forall|i: int| 0 <= i < want@.len() ==> cmd[i + 1]@ == want@[i]@
        },
    }
}

/// Whether `r` matches the command line `cmd`.
pub open spec fn rule_matches(r: Rule, cmd: Seq<String>) -> bool {
    &&& cmd.len() >= 1
    &&& cmd[0]@ == r.program@
    &&& args_match(r.args, cmd)
}

/// Whether the catch-all rule `r` matches the command line `cmd`.
pub open spec fn wildcard_matches(r: WildcardRule, cmd: Seq<String>) -> bool {
    &&& cmd.len() >= 1
    &&& args_match(r.args, cmd)
}

/// The verdict of the first matching rule, if any.
pub open spec fn first_rule_verdict(rules: Seq<Rule>, cmd: Seq<String>) -> Option<Verdict>
    decreases rules.len(),
{
    if rules.len() == 0 {
        None
    } else if rule_matches(rules[0], cmd) {
        Some(rules[0].verdict)
    } else {
        first_rule_verdict(rules.drop_first(), cmd)
    }
}

/// The verdict of the first matching catch-all rule, if any.
pub open spec fn first_wildcard_verdict(rules: Seq<WildcardRule>, cmd: Seq<String>) -> Option<
    Verdict,
>
    decreases rules.len(),
{
    if rules.len() == 0 {
        None
    } else if wildcard_matches(rules[0], cmd) {
        Some(rules[0].verdict)
    } else {
        first_wildcard_verdict(rules.drop_first(), cmd)
    }
}

impl Policy {
    /// What `classify` returns: the first matching program rule, else the
    /// first matching catch-all rule, else `MatchButInconclusive`.
    pub open spec fn classify_spec(self, cmd: Seq<String>) -> Verdict {
        match first_rule_verdict(self.rules@, cmd) {
            Some(v) => v,
            None => match first_wildcard_verdict(self.wildcard_rules@, cmd) {
                Some(v) => v,
                None => Verdict::MatchButInconclusive,
            },
        }
    }

    /// Whether no rule of this policy matches `cmd`.
    pub open spec fn matches_no_rule(self, cmd: Seq<String>) -> bool {
        &&& forall|i: int| 0 <= i < self.rules@.len() ==> !rule_matches(self.rules@[i], cmd)
        &&& forall|i: int|
            0 <= i < self.wildcard_rules@.len() ==> !wildcard_matches(
                self.wildcard_rules@[i],
                cmd,
            )
    }

    /// Whether no command of the known-bad example list classifies as safe.
    pub open spec fn bad_list_safe(self) -> bool {
        forall|i: int|
            0 <= i < self.known_bad@.len() ==> self.classify_spec(#[trigger] self.known_bad@[i]@)
                != Verdict::Safe
    }

    /// Whether every command of the known-good example list classifies as
    /// safe.
    pub open spec fn good_list_safe(self) -> bool {
        forall|i: int|
            0 <= i < self.known_good@.len() ==> self.classify_spec(#[trigger] self.known_good@[i]@)
                == Verdict::Safe
    }

    /// Evaluates the rules in precedence order against one command line.
    pub fn classify(&self, command: &Vec<String>) -> (v: Verdict)
        ensures
            v == self.classify_spec(command@),
    {
        let mut i: usize = 0;
        while i < self.rules.len()
            invariant
                i <= self.rules.len(),
                forall|j: int| 0 <= j < i ==> !rule_matches(self.rules@[j], command@),
            decreases self.rules.len() - i,
        {
            if rule_matches_exec(&self.rules[i], command) {
                proof {
                    lemma_first_rule_verdict_skip(self.rules@, command@, i as int);
                    assert(self.rules@.skip(i as int)[0] == self.rules@[i as int]);
                }
                return self.rules[i].verdict;
            }
            i = i + 1;
        }
        proof {
            lemma_first_rule_verdict_skip(self.rules@, command@, i as int);
            assert(self.rules@.skip(i as int).len() == 0);
        }
        let mut k: usize = 0;
        while k < self.wildcard_rules.len()
            invariant
                k <= self.wildcard_rules.len(),
                forall|j: int| 0 <= j < k ==> !wildcard_matches(self.wildcard_rules@[j], command@),
                first_rule_verdict(self.rules@, command@) is None,
            decreases self.wildcard_rules.len() - k,
        {
            if wildcard_matches_exec(&self.wildcard_rules[k], command) {
                proof {
                    lemma_first_wildcard_verdict_skip(self.wildcard_rules@, command@, k as int);
                    assert(self.wildcard_rules@.skip(k as int)[0] == self.wildcard_rules@[
                        k as int
                    ]);
                }
                return self.wildcard_rules[k].verdict;
            }
            k = k + 1;
        }
        proof {
            lemma_first_wildcard_verdict_skip(self.wildcard_rules@, command@, k as int);
            assert(self.wildcard_rules@.skip(k as int).len() == 0);
        }
        Verdict::MatchButInconclusive
    }

    /// The self-verification pass: classifies every command of the
    /// known-bad example list in isolation and reports, in increasing
    /// order, the index of every one that wrongly classifies as `Safe`.
    /// An empty result is exactly bad-list safety.
    pub fn check_each_bad_list_individually(&self) -> (violations: Vec<usize>)
        ensures
            forall|k: int|
                0 <= k < violations@.len() ==> violations@[k] < self.known_bad@.len()
                    && self.classify_spec(#[trigger] self.known_bad@[violations@[k] as int]@)
                    == Verdict::Safe,
            forall|i: int|
                0 <= i < self.known_bad@.len() && self.classify_spec(#[trigger] self.known_bad@[i]@)
                    == Verdict::Safe ==> violations@.contains(i as usize),
            violations@.len() == 0 <==> self.bad_list_safe(),
    {
        let mut violations: Vec<usize> = Vec::new();
        let mut i: usize = 0;
        while i < self.known_bad.len()
            invariant
                i <= self.known_bad@.len(),
                forall|k: int|
                    0 <= k < violations@.len() ==> violations@[k] < i && self.classify_spec(
                        #[trigger] self.known_bad@[violations@[k] as int]@,
                    ) == Verdict::Safe,
                forall|j: int|
                    0 <= j < i && self.classify_spec(#[trigger] self.known_bad@[j]@)
                        == Verdict::Safe ==> violations@.contains(j as usize),
            decreases self.known_bad@.len() - i,
        {
            let v = self.classify(&self.known_bad[i]);
            if matches!(v, Verdict::Safe) {
                let ghost prior = violations@;
                violations.push(i);
                proof {
                    assert forall|j: int|
                        0 <= j < i + 1 && self.classify_spec(#[trigger] self.known_bad@[j]@)
                            == Verdict::Safe implies violations@.contains(j as usize) by {
                        if j == i {
                            assert(violations@[violations@.len() - 1] == i as usize);
                        } else {
                            let k = choose|k: int|
                                0 <= k < prior.len() && prior[k] == j as usize;
                            assert(violations@[k] == j as usize);
                        }
                    }
                }
            }
            i = i + 1;
        }
        proof {
            if violations@.len() == 0 {
                assert forall|j: int|
                    0 <= j < self.known_bad@.len() implies self.classify_spec(
                    #[trigger] self.known_bad@[j]@,
                ) != Verdict::Safe by {
                    if self.classify_spec(self.known_bad@[j]@) == Verdict::Safe {
                        assert(violations@.contains(j as usize));
                    }
                }
            } else {
                assert(self.classify_spec(self.known_bad@[violations@[0] as int]@)
                    == Verdict::Safe);
            }
        }
        violations
    }
}

/// The example lists the default rule set carries: the known-bad list
/// holds `rm -rf /`, `sudo rm -rf /` and `shutdown -h now`, and the
/// known-good list holds `ls -la` and `pwd`.
pub open spec fn default_examples(p: Policy) -> bool {
    &&& p.known_bad@.len() == 3
    &&& p.known_bad@[0]@.len() == 3
    &&& p.known_bad@[0]@[0]@ == "rm"@
    &&& p.known_bad@[0]@[1]@ == "-rf"@
    &&& p.known_bad@[0]@[2]@ == "/"@
    &&& p.known_bad@[1]@.len() == 4
    &&& p.known_bad@[1]@[0]@ == "sudo"@
    &&& p.known_bad@[1]@[1]@ == "rm"@
    &&& p.known_bad@[1]@[2]@ == "-rf"@
    &&& p.known_bad@[1]@[3]@ == "/"@
    &&& p.known_bad@[2]@.len() == 3
    &&& p.known_bad@[2]@[0]@ == "shutdown"@
    &&& p.known_bad@[2]@[1]@ == "-h"@
    &&& p.known_bad@[2]@[2]@ == "now"@
    &&& p.known_good@.len() == 2
    &&& p.known_good@[0]@.len() == 2
    &&& p.known_good@[0]@[0]@ == "ls"@
    &&& p.known_good@[0]@[1]@ == "-la"@
    &&& p.known_good@[1]@.len() == 1
    &&& p.known_good@[1]@[0]@ == "pwd"@
}

/// Builds the default rule set and runs its self-check before handing it
/// out: a policy that classifies any known-bad example as `Safe` is a
/// configuration error, and no session starts on it.
#[verifier::rlimit(100)]
pub fn default_policy() -> (r: Result<Policy, PolicyError>)
    ensures
        r is Ok,
        r matches Ok(p) ==> {
            &&& default_examples(p)
            &&& p.bad_list_safe()
            &&& p.good_list_safe()
            &&& p.classify_spec(p.known_bad@[0]@) == Verdict::Forbidden
        },
{
    let mut rules: Vec<Rule> = Vec::new();
    rules.push(Rule { program: "ls".to_owned(), args: ArgPattern::AnyArgs, verdict: Verdict::Safe });
    rules.push(
        Rule { program: "cat".to_owned(), args: ArgPattern::AnyArgs, verdict: Verdict::Safe },
    );
    rules.push(
        Rule { program: "echo".to_owned(), args: ArgPattern::AnyArgs, verdict: Verdict::Safe },
    );
    rules.push(Rule { program: "pwd".to_owned(), args: ArgPattern::NoArgs, verdict: Verdict::Safe });
    let mut rm_prefix: Vec<String> = Vec::new();
    rm_prefix.push("-rf".to_owned());
    rules.push(
        Rule {
            program: "rm".to_owned(),
            args: ArgPattern::PrefixArgs(rm_prefix),
            verdict: Verdict::Forbidden,
        },
    );
    rules.push(
        Rule { program: "sudo".to_owned(), args: ArgPattern::AnyArgs, verdict: Verdict::Forbidden },
    );
    rules.push(
        Rule {
            program: "shutdown".to_owned(),
            args: ArgPattern::AnyArgs,
            verdict: Verdict::Forbidden,
        },
    );

    let mut known_good: Vec<Vec<String>> = Vec::new();
    let mut good_ls: Vec<String> = Vec::new();
    good_ls.push("ls".to_owned());
    good_ls.push("-la".to_owned());
    known_good.push(good_ls);
    let mut good_pwd: Vec<String> = Vec::new();
    good_pwd.push("pwd".to_owned());
    known_good.push(good_pwd);

    let mut known_bad: Vec<Vec<String>> = Vec::new();
    let mut bad_rm: Vec<String> = Vec::new();
    bad_rm.push("rm".to_owned());
    bad_rm.push("-rf".to_owned());
    bad_rm.push("/".to_owned());
    known_bad.push(bad_rm);
    let mut bad_sudo: Vec<String> = Vec::new();
    bad_sudo.push("sudo".to_owned());
    bad_sudo.push("rm".to_owned());
    bad_sudo.push("-rf".to_owned());
    bad_sudo.push("/".to_owned());
    known_bad.push(bad_sudo);
    let mut bad_shutdown: Vec<String> = Vec::new();
    bad_shutdown.push("shutdown".to_owned());
    bad_shutdown.push("-h".to_owned());
    bad_shutdown.push("now".to_owned());
    known_bad.push(bad_shutdown);

    let policy = Policy { rules, wildcard_rules: Vec::new(), known_good, known_bad };
    proof {
        reveal_strlit("ls");
        reveal_strlit("cat");
        reveal_strlit("echo");
        reveal_strlit("pwd");
        reveal_strlit("rm");
        reveal_strlit("sudo");
        reveal_strlit("shutdown");
        reveal_strlit("-rf");
        reveal_strlit("/");
        reveal_strlit("-h");
        reveal_strlit("now");
        let rl = policy.rules@;
        let b0 = policy.known_bad@[0]@;
        let b1 = policy.known_bad@[1]@;
        let b2 = policy.known_bad@[2]@;
        assert forall|j: int| 0 <= j < 4 implies !rule_matches(#[trigger] rl[j], b0) by {
            reveal_strlit("ls");
            reveal_strlit("cat");
            reveal_strlit("echo");
            reveal_strlit("pwd");
            reveal_strlit("rm");
            if j == 0 {
                assert(b0[0]@[0] == 'r');
                assert(rl[0].program@[0] == 'l');
            } else {
                assert(b0[0]@.len() == 2);
                assert(rl[j].program@.len() != 2);
            }
        }
        assert(policy.classify_spec(b0) == Verdict::Forbidden) by {
            lemma_first_match_at(rl, b0, 4);
        }
        assert forall|j: int| 0 <= j < 5 implies !rule_matches(#[trigger] rl[j], b1) by {
            reveal_strlit("ls");
            reveal_strlit("cat");
            reveal_strlit("echo");
            reveal_strlit("pwd");
            reveal_strlit("rm");
            reveal_strlit("sudo");
            if j == 2 {
                assert(b1[0]@[0] == 's');
                assert(rl[2].program@[0] == 'e');
            } else {
                assert(b1[0]@.len() == 4);
                assert(rl[j].program@.len() != 4);
            }
        }
        assert(policy.classify_spec(b1) == Verdict::Forbidden) by {
            lemma_first_match_at(rl, b1, 5);
        }
        assert forall|j: int| 0 <= j < 6 implies !rule_matches(#[trigger] rl[j], b2) by {
            reveal_strlit("ls");
            reveal_strlit("cat");
            reveal_strlit("echo");
            reveal_strlit("pwd");
            reveal_strlit("rm");
            reveal_strlit("sudo");
            reveal_strlit("shutdown");
            assert(b2[0]@.len() == 8);
            assert(rl[j].program@.len() != 8);
        }
        assert(policy.classify_spec(b2) == Verdict::Forbidden) by {
            lemma_first_match_at(rl, b2, 6);
        }
        assert forall|i: int|
            0 <= i < policy.known_bad@.len() implies policy.classify_spec(
            #[trigger] policy.known_bad@[i]@,
        ) != Verdict::Safe by {
            if i == 0 {
                assert(policy.classify_spec(b0) == Verdict::Forbidden);
            } else if i == 1 {
                assert(policy.classify_spec(b1) == Verdict::Forbidden);
            } else {
                assert(policy.classify_spec(b2) == Verdict::Forbidden);
            }
        }
        let g0 = policy.known_good@[0]@;
        let g1 = policy.known_good@[1]@;
        assert(policy.classify_spec(g0) == Verdict::Safe) by {
            reveal_strlit("ls");
            lemma_first_match_at(rl, g0, 0);
        }
        assert forall|j: int| 0 <= j < 3 implies !rule_matches(#[trigger] rl[j], g1) by {
            reveal_strlit("ls");
            reveal_strlit("cat");
            reveal_strlit("echo");
            reveal_strlit("pwd");
            if j == 1 {
                assert(g1[0]@[0] == 'p');
                assert(rl[1].program@[0] == 'c');
            } else {
                assert(g1[0]@.len() == 3);
                assert(rl[j].program@.len() != 3);
            }
        }
        assert(policy.classify_spec(g1) == Verdict::Safe) by {
            reveal_strlit("pwd");
            lemma_first_match_at(rl, g1, 3);
        }
        assert forall|i: int|
            0 <= i < policy.known_good@.len() implies policy.classify_spec(
            #[trigger] policy.known_good@[i]@,
        ) == Verdict::Safe by {
            if i == 0 {
                assert(policy.classify_spec(g0) == Verdict::Safe);
            } else {
                assert(policy.classify_spec(g1) == Verdict::Safe);
            }
        }
        assert(default_examples(policy));
    }
    let violations = policy.check_each_bad_list_individually();
    if violations.len() == 0 {
        Ok(policy)
    } else {
        Err(PolicyError::BadListViolation)
    }
}

/// Whether `r` matches `command`, decided executably.
fn rule_matches_exec(r: &Rule, command: &Vec<String>) -> (b: bool)
    ensures
        b == rule_matches(*r, command@),
{
    if command.len() == 0 {
        return false;
    }
    if !(command[0] == r.program) {
        return false;
    }
    args_match_exec(&r.args, command)
}

/// Whether the catch-all rule `r` matches `command`, decided executably.
fn wildcard_matches_exec(r: &WildcardRule, command: &Vec<String>) -> (b: bool)
    ensures
        b == wildcard_matches(*r, command@),
{
    if command.len() == 0 {
        return false;
    }
    args_match_exec(&r.args, command)
}

/// Whether the arguments of `command` (everything after the program name)
/// fit the pattern `p`.
fn args_match_exec(p: &ArgPattern, command: &Vec<String>) -> (b: bool)
    requires
        command@.len() >= 1,
    ensures
        b == args_match(*p, command@),
{
    match p {
        ArgPattern::AnyArgs => true,
        ArgPattern::NoArgs => command.len() == 1,
        ArgPattern::ExactArgs(want) => {
            if command.len() - 1 != want.len() {
                return false;
            }
            args_prefix_eq(want, command)
        },
        ArgPattern::PrefixArgs(want) => {
            if command.len() - 1 < want.len() {
                return false;
            }
            args_prefix_eq(want, command)
        },
    }
}

/// Whether `want` equals, element for element, the first `want.len()`
/// arguments of `command` after the program name.
fn args_prefix_eq(want: &Vec<String>, command: &Vec<String>) -> (b: bool)
    requires
        want@.len() + 1 <= command@.len(),
    ensures
        b == forall|i: int| 0 <= i < want@.len() ==> command@[i + 1]@ == want@[i]@,
{
    let mut i: usize = 0;
    while i < want.len()
        invariant
            i <= want@.len(),
            want@.len() + 1 <= command@.len(),
            forall|j: int| 0 <= j < i ==> command@[j + 1]@ == want@[j]@,
        decreases want@.len() - i,
    {
        if !(command[i + 1] == want[i]) {
            return false;
        }
        i = i + 1;
    }
    true
}

/// When the rule at `k` is the first that matches, its verdict is the
/// scan's result.
proof fn lemma_first_match_at(rl: Seq<Rule>, cmd: Seq<String>, k: int)
    requires
        0 <= k < rl.len(),
        forall|j: int| 0 <= j < k ==> !rule_matches(#[trigger] rl[j], cmd),
        rule_matches(rl[k], cmd),
    ensures
        first_rule_verdict(rl, cmd) == Some(rl[k].verdict),
{
    lemma_first_rule_verdict_skip(rl, cmd, k);
    assert(rl.skip(k)[0] == rl[k]);
}

/// If no rule among the first `i` matches, the scan may start at `i`.
proof fn lemma_first_rule_verdict_skip(rules: Seq<Rule>, cmd: Seq<String>, i: int)
    requires
        0 <= i <= rules.len(),
        forall|j: int| 0 <= j < i ==> !rule_matches(rules[j], cmd),
    ensures
        first_rule_verdict(rules, cmd) == first_rule_verdict(rules.skip(i), cmd),
    decreases i,
{
    if i == 0 {
        assert(rules.skip(0) =~= rules);
    } else {
        assert(!rule_matches(rules[0], cmd));
        lemma_first_rule_verdict_skip(rules.drop_first(), cmd, i - 1);
        assert(rules.drop_first().skip(i - 1) =~= rules.skip(i));
    }
}

/// If no catch-all rule among the first `i` matches, the scan may start at `i`.
proof fn lemma_first_wildcard_verdict_skip(rules: Seq<WildcardRule>, cmd: Seq<String>, i: int)
    requires
        0 <= i <= rules.len(),
        forall|j: int| 0 <= j < i ==> !wildcard_matches(rules[j], cmd),
    ensures
        first_wildcard_verdict(rules, cmd) == first_wildcard_verdict(rules.skip(i), cmd),
    decreases i,
{
    if i == 0 {
        assert(rules.skip(0) =~= rules);
    } else {
        assert(!wildcard_matches(rules[0], cmd));
        lemma_first_wildcard_verdict_skip(rules.drop_first(), cmd, i - 1);
        assert(rules.drop_first().skip(i - 1) =~= rules.skip(i));
    }
}

/// No rule matching a verdict `None`: if no rule of the policy matches the
/// command, both scans come up empty.
proof fn lemma_no_match_no_verdict(p: Policy, cmd: Seq<String>)
    requires
        p.matches_no_rule(cmd),
    ensures
        first_rule_verdict(p.rules@, cmd) is None,
        first_wildcard_verdict(p.wildcard_rules@, cmd) is None,
{
    lemma_first_rule_verdict_skip(p.rules@, cmd, p.rules@.len() as int);
    assert(p.rules@.skip(p.rules@.len() as int).len() == 0);
    lemma_first_wildcard_verdict_skip(p.wildcard_rules@, cmd, p.wildcard_rules@.len() as int);
    assert(p.wildcard_rules@.skip(p.wildcard_rules@.len() as int).len() == 0);
}

/// Default-deny on unknown commands: a command matching no rule of the
/// policy classifies as `MatchButInconclusive`, never as `Safe`.
pub proof fn lemma_default_deny_on_unknown(p: Policy, cmd: Seq<String>)
    requires
        p.matches_no_rule(cmd),
    ensures
        p.classify_spec(cmd) == Verdict::MatchButInconclusive,
{
    lemma_no_match_no_verdict(p, cmd);
}

/// Bad-list safety: of a policy whose self-check reports no violation, no
/// command of the known-bad example list ever classifies as `Safe`.
pub proof fn lemma_bad_list_safety(p: Policy, i: int)
    requires
        p.bad_list_safe(),
        0 <= i < p.known_bad@.len(),
    ensures
        p.classify_spec(p.known_bad@[i]@) != Verdict::Safe,
{
}

} // verus!
