//! Reverse port forwarding rules.

use vstd::prelude::*;

verus! {

/// Rules that route connections arriving on a port of the device back to a
/// port of the host. Each rule maps a local port to a remote port; no local
/// port has two rules. The rules are kept in the order in which their local
/// ports were first named.
#[derive(Debug)]
pub struct PortForwards {
    rules: Vec<(String, String)>,
}

/// The views of a sequence of rules, in order.
pub open spec fn rule_views(rules: Seq<(String, String)>) -> Seq<(Seq<char>, Seq<char>)> {
    Seq::new(rules.len(), |i: int| (rules[i].0@, rules[i].1@))
}

/// The local ports of a sequence of rules, in order.
pub open spec fn local_ports(rules: Seq<(Seq<char>, Seq<char>)>) -> Seq<Seq<char>> {
    Seq::new(rules.len(), |i: int| rules[i].0)
}

/// `rules` with `local` mapped to `remote`: the rule for `local` is replaced
/// where there is one, and a new rule is added at the end where there is
/// none.
pub open spec fn forward_spec(
    rules: Seq<(Seq<char>, Seq<char>)>,
    local: Seq<char>,
    remote: Seq<char>,
) -> Seq<(Seq<char>, Seq<char>)> {
    if local_ports(rules).contains(local) {
        rules.update(local_ports(rules).index_of(local), (local, remote))
    } else {
        rules.push((local, remote))
    }
}

impl View for PortForwards {
    type V = Seq<(Seq<char>, Seq<char>)>;

    closed spec fn view(&self) -> Seq<(Seq<char>, Seq<char>)> {
        rule_views(self.rules@)
    }
}

impl PortForwards {
    #[verifier::type_invariant]
    spec fn unique(&self) -> bool {
        local_ports(rule_views(self.rules@)).no_duplicates()
    }

    /// No rules.
    pub fn new() -> (ports: Self)
        ensures
            ports@ == Seq::<(Seq<char>, Seq<char>)>::empty(),
    {
        let ports = PortForwards { rules: Vec::new() };
        assert(ports@ =~= Seq::<(Seq<char>, Seq<char>)>::empty());
        assert(local_ports(ports@) =~= Seq::<Seq<char>>::empty());
        ports
    }

    /// The number of rules.
    pub fn len(&self) -> (n: usize)
        ensures
            n == self@.len(),
    {
        self.rules.len()
    }

    /// The rules with `local` mapped to `remote`. A rule that `local` had
    /// before is replaced in its place.
    pub fn insert(self, local: String, remote: String) -> (ports: Self)
        ensures
            ports@ == forward_spec(self@, local@, remote@),
            local_ports(ports@).no_duplicates(),
    {
        proof {
            use_type_invariant(&self);
        }
        let ghost before = self@;
        let PortForwards { rules } = self;
        let mut rules = rules;
        let mut i: usize = 0;
        while i < rules.len()
            invariant
                i <= rules.len(),
                before == self@,
                rule_views(rules@) == before,
                local_ports(before).no_duplicates(),
                forall|j: int| 0 <= j < i ==> local_ports(before)[j] != local@,
            decreases rules.len() - i,
        {
            if rules[i].0 == local {
                proof {
                    assert(local_ports(before)[i as int] == local@);
                    assert(local_ports(before).contains(local@));
                    let k = local_ports(before).index_of(local@);
                    assert(k == i);
                }
                rules.set(i, (local, remote));
                proof {
                    assert(rule_views(rules@) =~= before.update(i as int, (local@, remote@)));
                    assert(local_ports(rule_views(rules@)) =~= local_ports(before));
                }
                return PortForwards { rules };
            }
            i = i + 1;
        }
        rules.push((local, remote));
        proof {
            assert(rule_views(rules@) =~= before.push((local@, remote@)));
            assert(local_ports(rule_views(rules@)) =~= local_ports(before).push(local@));
        }
        PortForwards { rules }
    }

    /// The rules, in the order in which their local ports were first named.
    pub fn rules(&self) -> (rules: &Vec<(String, String)>)
        ensures
            rule_views(rules@) == self@,
            local_ports(self@).no_duplicates(),
    {
        proof {
            use_type_invariant(self);
        }
        &self.rules
    }

    /// A copy with the same rules in the same order.
    pub fn duplicate(&self) -> (copy: Self)
        ensures
            copy@ == self@,
            local_ports(copy@).no_duplicates(),
    {
        proof {
            use_type_invariant(self);
        }
        let mut rules: Vec<(String, String)> = Vec::new();
        let mut i: usize = 0;
        while i < self.rules.len()
            invariant
                i <= self.rules.len(),
                rules@.len() == i,
                rule_views(rules@) == self@.take(i as int),
            decreases self.rules.len() - i,
        {
            let rule = &self.rules[i];
            let local = rule.0.clone();
            let remote = rule.1.clone();
            assert(self@[i as int] == (local@, remote@));
            rules.push((local, remote));
            i = i + 1;
            assert(rule_views(rules@) =~= self@.take(i as int));
        }
        assert(self@.take(self.rules.len() as int) =~= self@);
        PortForwards { rules }
    }
}

} // verus!
