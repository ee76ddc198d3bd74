//! The environment bridge: derives environment variable names from the
//! configured prefix, computes the bindings a parse result pushes out, and
//! pulls defaults back in from an environment snapshot.

use vstd::prelude::*;
use crate::assoc::assoc_find;
use crate::assoc::assoc_idx;
use crate::assoc::distinct_keys;
use crate::assoc::entries_view;
use crate::assoc::lemma_assoc_find_at;
use crate::assoc::lemma_assoc_find_absent;
use crate::parse::OptionsResult;
use crate::registry::ConfigOptionBase;
use crate::registry::OptionModel;
use crate::registry::Whsp;
use crate::text::str_to_uppercase;
use crate::text::upper_of;
use crate::values::ParseError;
use crate::values::ValueModel;
use crate::values::env_text_of;
use crate::values::from_env_text_spec;
use crate::values::from_env_val;
use crate::values::to_env_val;

verus! {

/// The environment variable name for an option: uppercase prefix, an
/// underscore, then the uppercase option name.
pub open spec fn env_key_of(prefix: Seq<char>, name: Seq<char>) -> Seq<char> {
    upper_of(prefix) + "_"@ + upper_of(name)
}

/// Derives the environment variable name for `key` under `prefix`.
pub fn to_env_key(prefix: &str, key: &str) -> (r: String)
    ensures
        r@ == env_key_of(prefix@, key@),
{
    let mut s = str_to_uppercase(prefix);
    s.append("_");
    let up = str_to_uppercase(key);
    s.append(up.as_str());
    s
}

/// The environment bindings a parse result produces: one per value, in
/// order, under the prefix-derived key; none without a prefix.
pub open spec fn env_pairs_of(
    prefix: Option<Seq<char>>,
    vals: Seq<(Seq<char>, ValueModel)>,
) -> Seq<(Seq<char>, Seq<char>)> {
    match prefix {
        None => Seq::empty(),
        Some(p) => vals.map_values(|e: (Seq<char>, ValueModel)| (env_key_of(p, e.0), env_text_of(e.1))),
    }
}

/// What pulling defaults from an environment snapshot yields: each option
/// in order keeps its entry, with its default overwritten by the decoded
/// snapshot value under its prefix-derived key when one is present; the
/// first undecodable value fails the whole operation.
pub open spec fn apply_env(
    cfg: Seq<(Seq<char>, OptionModel)>,
    prefix: Seq<char>,
    env: Seq<(Seq<char>, Seq<char>)>,
) -> Result<Seq<(Seq<char>, OptionModel)>, ParseError>
    decreases cfg.len(),
{
    if cfg.len() == 0 {
        Ok(Seq::empty())
    } else {
        let name = cfg[0].0;
        let o = cfg[0].1;
        let head: Result<OptionModel, ParseError> = match assoc_find(env, env_key_of(prefix, name)) {
            None => Ok(o),
            Some(text) => match from_env_text_spec(text, o.config_type) {
                Some(v) => Ok(OptionModel { default: Some(v), ..o }),
                None => Err(ParseError::MalformedNumber),
            },
        };
        match head {
            Err(e) => Err(e),
            Ok(o2) => match apply_env(cfg.drop_first(), prefix, env) {
                Err(e) => Err(e),
                Ok(rest) => Ok(seq![(name, o2)] + rest),
            },
        }
    }
}

/// Pulling defaults keeps the configuration's shape: on success the result
/// has the same length and the same name at every index.
pub proof fn lemma_apply_env_keys(
    cfg: Seq<(Seq<char>, OptionModel)>,
    prefix: Seq<char>,
    env: Seq<(Seq<char>, Seq<char>)>,
)
    ensures
        apply_env(cfg, prefix, env) matches Ok(r) ==> r.len() == cfg.len() && (forall|i: int|
            0 <= i < cfg.len() ==> r[i].0 == cfg[i].0),
    decreases cfg.len(),
{
    if cfg.len() > 0 {
        lemma_apply_env_keys(cfg.drop_first(), prefix, env);
        if apply_env(cfg, prefix, env) is Ok {
            let r = apply_env(cfg, prefix, env)->Ok_0;
            let rest = apply_env(cfg.drop_first(), prefix, env)->Ok_0;
            assert(r == seq![(cfg[0].0, r[0].1)] + rest);
            assert(r[0].0 == cfg[0].0);
            assert(forall|i: int| 1 <= i < r.len() ==> r[i].0 == rest[i - 1].0);
            assert(forall|i: int| 1 <= i < cfg.len() ==> cfg.drop_first()[i - 1] == cfg[i]);
        }
    }
}

impl Whsp {
    /// Computes the environment bindings for a parse result: one per value
    /// under the prefix-derived key, in order; none when no prefix is
    /// configured.  The caller applies them to the process environment.
    #[verifier::loop_isolation(false)]
    pub fn write_env(&self, parsed: &OptionsResult) -> (r: Vec<(String, String)>)
        ensures
            entries_view(r@) == env_pairs_of(self.spec_prefix(), entries_view(parsed.values@)),
    {
        let mut out: Vec<(String, String)> = Vec::new();
        match &self.options.env_prefix {
            None => {
                proof {
                    assert(entries_view(out@) =~= env_pairs_of(
                        self.spec_prefix(),
                        entries_view(parsed.values@),
                    ));
                }
            },
            Some(prefix) => {
                let ghost p = prefix@;
                let ghost vals = entries_view(parsed.values@);
                let ghost target = env_pairs_of(self.spec_prefix(), vals);
                let mut i: usize = 0;
                while i < parsed.values.len()
                    invariant
                        i <= parsed.values@.len(),
                        entries_view(out@) =~= target.take(i as int),
                    decreases parsed.values@.len() - i,
                {
                    let ghost before = entries_view(out@);
                    let field = &parsed.values[i].0;
                    let value = &parsed.values[i].1;
                    let env_key = to_env_key(prefix.as_str(), field.as_str());
                    let env_value = to_env_val(value);
                    proof {
                        assert(vals[i as int] == (parsed.values@[i as int].0@,
                            parsed.values@[i as int].1@));
                        assert(target[i as int] == (env_key_of(p, vals[i as int].0),
                            env_text_of(vals[i as int].1)));
                    }
                    out.push((env_key, env_value));
                    proof {
                        assert(entries_view(out@) =~= before.push(target[i as int]));
                        assert(entries_view(out@) =~= target.take(i as int + 1));
                    }
                    i = i + 1;
                }
                proof {
                    assert(target.take(i as int) =~= target);
                }
            },
        }
        out
    }

    /// Pulls option defaults from an environment snapshot: with a prefix
    /// configured, every option whose prefix-derived key is bound in the
    /// snapshot gets its default overwritten by the decoded value; without
    /// one, nothing changes.  The first undecodable value fails the call
    /// and leaves the registry unchanged.
    #[verifier::loop_isolation(false)]
    pub fn set_defaults_from_env(&mut self, env: &Vec<(String, String)>) -> (r: Result<
        (),
        ParseError,
    >)
        ensures
            final(self).short_options == old(self).short_options,
            final(self).options == old(self).options,
            old(self).wf() ==> final(self).wf(),
            match old(self).spec_prefix() {
                None => r is Ok && *final(self) == *old(self),
                Some(p) => match r {
                    Ok(_) => apply_env(old(self).spec_config(), p, entries_view(env@)) == Ok::<
                        _,
                        ParseError,
                    >(final(self).spec_config()),
                    Err(e) => apply_env(old(self).spec_config(), p, entries_view(env@)) == Err::<
                        Seq<(Seq<char>, OptionModel)>,
                        ParseError,
                    >(e) && final(self).config_set == old(self).config_set,
                },
            },
    {
        let prefix = match &self.options.env_prefix {
            None => {
                return Ok(());
            },
            Some(p) => p.clone(),
        };
        let ghost cfg = self.spec_config();
        let ghost ev = entries_view(env@);
        let ghost pp = prefix@;
        let mut out: Vec<(String, ConfigOptionBase)> = Vec::new();
        let mut i: usize = 0;
        proof {
            assert(cfg.skip(0) =~= cfg);
        }
        while i < self.config_set.len()
            invariant
                i <= self.config_set@.len(),
                apply_env(cfg, pp, ev) == match apply_env(cfg.skip(i as int), pp, ev) {
                    Ok(rest) => Ok::<_, ParseError>(entries_view(out@) + rest),
                    Err(e) => Err(e),
                },
            decreases self.config_set@.len() - i,
        {
            let ghost tail = cfg.skip(i as int);
            proof {
                assert(tail[0] == cfg[i as int]);
                assert(tail.drop_first() =~= cfg.skip(i as int + 1));
                assert(cfg[i as int] == (self.config_set@[i as int].0@,
                    self.config_set@[i as int].1@));
            }
            let name = self.config_set[i].0.clone();
            let mut option = self.config_set[i].1.duplicate();
            let ghost o = option@;
            let env_key = to_env_key(prefix.as_str(), name.as_str());
            proof {
                assert(env_key@ == env_key_of(pp, name@));
            }
            match assoc_idx(env, &env_key) {
                None => {
                    proof {
                        lemma_assoc_find_absent(ev, env_key@);
                    }
                },
                Some(ei) => {
                    proof {
                        lemma_assoc_find_at(ev, env_key@, ei as int);
                        assert(ev[ei as int] == (env@[ei as int].0@, env@[ei as int].1@));
                    }
                    let text = env[ei].1.clone();
                    match from_env_val(text, option.config_type) {
                        Ok(v) => {
                            let ghost vv = v@;
                            option.default = Some(v);
                            proof {
                                assert(option@ == (OptionModel { default: Some(vv), ..o }));
                            }
                        },
                        Err(e) => {
                            proof {
                                assert(apply_env(tail, pp, ev) == Err::<
                                    Seq<(Seq<char>, OptionModel)>,
                                    ParseError,
                                >(e));
                            }
                            return Err(e);
                        },
                    }
                },
            }
            let ghost o2 = option@;
            let ghost before = entries_view(out@);
            let ghost nm = name@;
            out.push((name, option));
            proof {
                assert(entries_view(out@) =~= before.push((nm, o2)));
                assert(apply_env(tail, pp, ev) == match apply_env(cfg.skip(i as int + 1), pp, ev) {
                    Ok(rest) => Ok::<_, ParseError>(seq![(nm, o2)] + rest),
                    Err(e) => Err(e),
                });
                if apply_env(cfg.skip(i as int + 1), pp, ev) is Ok {
                    let rest = apply_env(cfg.skip(i as int + 1), pp, ev)->Ok_0;
                    assert(before.push((nm, o2)) + rest =~= before + (seq![(nm, o2)] + rest));
                }
            }
            i = i + 1;
        }
        proof {
            assert(cfg.skip(i as int) =~= Seq::<(Seq<char>, OptionModel)>::empty());
            assert(entries_view(out@) + Seq::<(Seq<char>, OptionModel)>::empty() =~= entries_view(
                out@,
            ));
        }
        proof {
            if distinct_keys(cfg) {
                lemma_apply_env_keys(cfg, pp, ev);
                assert(distinct_keys(entries_view(out@)));
            }
        }
        self.config_set = out;
        Ok(())
    }
}

} // verus!
