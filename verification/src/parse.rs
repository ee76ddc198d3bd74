//! The argument tokenizer: a single left-to-right scan over a flat argument
//! vector, resolving long and short option tokens through the registry and
//! collecting everything else as positionals.

use vstd::prelude::*;
use crate::assoc::assoc_find;
use crate::assoc::assoc_insert;
use crate::assoc::assoc_idx;
use crate::assoc::assoc_set;
use crate::assoc::distinct_keys;
use crate::assoc::entries_view;
use crate::assoc::lemma_assoc_insert_distinct;
use crate::assoc::lemma_assoc_find_at;
use crate::assoc::lemma_assoc_find_absent;
use crate::registry::OptionModel;
use crate::registry::Whsp;
use crate::values::ConfigKind;
use crate::values::ParseError;
use crate::values::ValidValue;
use crate::values::ValueModel;
use crate::values::from_env_text_spec;
use crate::values::from_env_val;

verus! {

/// Output of a parse: values by option name, in first-seen order with the
/// latest occurrence winning, and positional tokens in encountered order.
#[derive(Debug)]
pub struct OptionsResult {
    pub values: Vec<(String, ValidValue)>,
    pub positionals: Vec<String>,
}

impl OptionsResult {
    /// Well-formed: value names pairwise distinct, so the result reads as a
    /// mapping.  Every result `parse_raw` returns is well-formed.
    pub open spec fn wf(self) -> bool {
        distinct_keys(entries_view(self.values@))
    }
}

/// The view of a list of strings.
pub open spec fn strs_view(s: Seq<String>) -> Seq<Seq<char>> {
    s.map_values(|x: String| x@)
}

/// Whether a token carries the two-character long-option marker.
pub open spec fn is_long_tok(t: Seq<char>) -> bool {
    t.len() >= 2 && t[0] == '-' && t[1] == '-'
}

/// Whether a token carries the single-character short-option marker.
pub open spec fn is_short_tok(t: Seq<char>) -> bool {
    t.len() >= 1 && t[0] == '-'
}

/// A long token with its marker stripped.
pub open spec fn long_key(t: Seq<char>) -> Seq<char> {
    t.subrange(2, t.len() as int)
}

/// A short token with its marker stripped.
pub open spec fn short_key(t: Seq<char>) -> Seq<char> {
    t.subrange(1, t.len() as int)
}

/// What the scan yields from position `i` on, given the values and
/// positionals collected so far.  A registered boolean option is set to
/// true by its presence; any other registered option consumes the next
/// token as its value, or is silently skipped when no token follows;
/// unregistered option tokens are dropped; anything else is positional.
/// Only malformed decimal text for a number-kind option fails.
pub open spec fn parse_from(
    cfg: Seq<(Seq<char>, OptionModel)>,
    shorts: Seq<(Seq<char>, Seq<char>)>,
    args: Seq<Seq<char>>,
    i: int,
    values: Seq<(Seq<char>, ValueModel)>,
    pos: Seq<Seq<char>>,
) -> Result<(Seq<(Seq<char>, ValueModel)>, Seq<Seq<char>>), ParseError>
    decreases args.len() - i, 1int,
{
    if i < 0 || i >= args.len() {
        Ok((values, pos))
    } else {
        let t = args[i];
        if is_long_tok(t) {
            match assoc_find(cfg, long_key(t)) {
                None => parse_from(cfg, shorts, args, i + 1, values, pos),
                Some(o) => parse_opt_at(cfg, shorts, args, i, values, pos, long_key(t), o),
            }
        } else if is_short_tok(t) {
            match assoc_find(shorts, short_key(t)) {
                None => parse_from(cfg, shorts, args, i + 1, values, pos),
                Some(name) => match assoc_find(cfg, name) {
                    None => parse_from(cfg, shorts, args, i + 1, values, pos),
                    Some(o) => parse_opt_at(cfg, shorts, args, i, values, pos, name, o),
                },
            }
        } else {
            parse_from(cfg, shorts, args, i + 1, values, pos.push(t))
        }
    }
}

/// What the scan yields once the token at `i` has resolved to the
/// registered option `o` under `key`.
pub open spec fn parse_opt_at(
    cfg: Seq<(Seq<char>, OptionModel)>,
    shorts: Seq<(Seq<char>, Seq<char>)>,
    args: Seq<Seq<char>>,
    i: int,
    values: Seq<(Seq<char>, ValueModel)>,
    pos: Seq<Seq<char>>,
    key: Seq<char>,
    o: OptionModel,
) -> Result<(Seq<(Seq<char>, ValueModel)>, Seq<Seq<char>>), ParseError>
    decreases args.len() - i, 0int,
        when 0 <= i < args.len()
{
    if o.config_type == ConfigKind::Boolean {
        parse_from(
            cfg,
            shorts,
            args,
            i + 1,
            assoc_insert(values, key, ValueModel::Boolean(true)),
            pos,
        )
    } else if i + 1 < args.len() {
        match from_env_text_spec(args[i + 1], o.config_type) {
            None => Err(ParseError::MalformedNumber),
            Some(v) => parse_from(cfg, shorts, args, i + 2, assoc_insert(values, key, v), pos),
        }
    } else {
        parse_from(cfg, shorts, args, i + 1, values, pos)
    }
}

impl Whsp {
    /// Parses a flat argument vector per the single-scan policy of
    /// `parse_from`, starting from an empty result.
    #[verifier::loop_isolation(false)]
    pub fn parse_raw(&self, args: &Vec<String>) -> (r: Result<OptionsResult, ParseError>)
        ensures
            match r {
                Ok(res) => parse_from(
                    self.spec_config(),
                    self.spec_shorts(),
                    strs_view(args@),
                    0,
                    Seq::<(Seq<char>, ValueModel)>::empty(),
                    Seq::<Seq<char>>::empty(),
                ) == Ok::<_, ParseError>(
                    (entries_view(res.values@), strs_view(res.positionals@)),
                ) && res.wf(),
                Err(e) => parse_from(
                    self.spec_config(),
                    self.spec_shorts(),
                    strs_view(args@),
                    0,
                    Seq::<(Seq<char>, ValueModel)>::empty(),
                    Seq::<Seq<char>>::empty(),
                ) == Err::<(Seq<(Seq<char>, ValueModel)>, Seq<Seq<char>>), ParseError>(e),
            },
    {
        let ghost cfg = self.spec_config();
        let ghost sh = self.spec_shorts();
        let ghost av = strs_view(args@);
        let mut values: Vec<(String, ValidValue)> = Vec::new();
        let mut positionals: Vec<String> = Vec::new();
        let mut i: usize = 0;
        proof {
            assert(entries_view(values@) =~= Seq::<(Seq<char>, ValueModel)>::empty());
            assert(strs_view(positionals@) =~= Seq::<Seq<char>>::empty());
        }
        while i < args.len()
            invariant
                i <= args@.len(),
                parse_from(cfg, sh, av, 0, Seq::empty(), Seq::empty()) == parse_from(
                    cfg,
                    sh,
                    av,
                    i as int,
                    entries_view(values@),
                    strs_view(positionals@),
                ),
                distinct_keys(entries_view(values@)),
            decreases args@.len() - i,
        {
            let arg = &args[i];
            let ghost t = av[i as int];
            let ghost i0 = i as int;
            let ghost vals0 = entries_view(values@);
            let ghost pos0 = strs_view(positionals@);
            proof {
                assert(av.len() == args@.len());
                assert(av[i0] == args@[i0]@);
            }
            let alen = arg.as_str().unicode_len();
            if alen >= 2 && arg.as_str().get_char(0) == '-' && arg.as_str().get_char(1) == '-' {
                let key = arg.as_str().substring_char(2, alen).to_owned();
                let ghost kk = key@;
                proof {
                    assert(is_long_tok(t));
                    assert(kk == long_key(t));
                }
                match assoc_idx(&self.config_set, &key) {
                    None => {
                        proof {
                            lemma_assoc_find_absent(cfg, kk);
                            assert(parse_from(cfg, sh, av, i0, vals0, pos0) == parse_from(
                                cfg,
                                sh,
                                av,
                                i0 + 1,
                                vals0,
                                pos0,
                            ));
                        }
                    },
                    Some(ci) => {
                        let ghost o = self.config_set@[ci as int].1@;
                        proof {
                            lemma_assoc_find_at(cfg, kk, ci as int);
                            assert(cfg[ci as int] == (self.config_set@[ci as int].0@, o));
                            assert(assoc_find(cfg, long_key(t)) == Some(o));
                        }
                        let kind = self.config_set[ci].1.config_type;
                        proof {
                            assert(o.config_type == kind);
                        }
                        if kind == ConfigKind::Boolean {
                            proof {
                                lemma_assoc_insert_distinct(
                                    vals0,
                                    kk,
                                    ValueModel::Boolean(true),
                                );
                            }
                            assoc_set(&mut values, key, ValidValue::Boolean(true));
                            proof {
                                assert(entries_view(values@) == assoc_insert(
                                    vals0,
                                    kk,
                                    ValueModel::Boolean(true),
                                ));
                                assert(parse_opt_at(cfg, sh, av, i0, vals0, pos0, kk, o)
                                    == parse_from(
                                    cfg,
                                    sh,
                                    av,
                                    i0 + 1,
                                    entries_view(values@),
                                    pos0,
                                ));
                                assert(parse_from(cfg, sh, av, i0, vals0, pos0) == parse_from(
                                    cfg,
                                    sh,
                                    av,
                                    i0 + 1,
                                    entries_view(values@),
                                    pos0,
                                ));
                            }
                        } else if i + 1 < args.len() {
                            proof {
                                assert(av[i0 + 1] == args@[i0 + 1]@);
                            }
                            match from_env_val(args[i + 1].clone(), kind) {
                                Ok(v) => {
                                    let ghost vv = v@;
                                    proof {
                                        assert(from_env_text_spec(av[i0 + 1], o.config_type)
                                            == Some(vv));
                                    }
                                    proof {
                                        lemma_assoc_insert_distinct(vals0, kk, vv);
                                    }
                                    assoc_set(&mut values, key, v);
                                    i = i + 1;
                                    proof {
                                        assert(entries_view(values@) == assoc_insert(
                                            vals0,
                                            kk,
                                            vv,
                                        ));
                                        assert(parse_opt_at(cfg, sh, av, i0, vals0, pos0, kk, o)
                                            == parse_from(
                                            cfg,
                                            sh,
                                            av,
                                            i0 + 2,
                                            entries_view(values@),
                                            pos0,
                                        ));
                                        assert(parse_from(cfg, sh, av, i0, vals0, pos0)
                                            == parse_from(
                                            cfg,
                                            sh,
                                            av,
                                            i0 + 2,
                                            entries_view(values@),
                                            pos0,
                                        ));
                                    }
                                },
                                Err(e) => {
                                    proof {
                                        assert(from_env_text_spec(av[i0 + 1], o.config_type)
                                            is None);
                                        assert(parse_opt_at(cfg, sh, av, i0, vals0, pos0, kk, o)
                                            == Err::<
                                            (Seq<(Seq<char>, ValueModel)>, Seq<Seq<char>>),
                                            ParseError,
                                        >(e));
                                        assert(parse_from(cfg, sh, av, i0, vals0, pos0) == Err::<
                                            (Seq<(Seq<char>, ValueModel)>, Seq<Seq<char>>),
                                            ParseError,
                                        >(e));
                                    }
                                    return Err(e);
                                },
                            }
                        } else {
                            proof {
                                assert(parse_opt_at(cfg, sh, av, i0, vals0, pos0, kk, o)
                                    == parse_from(cfg, sh, av, i0 + 1, vals0, pos0));
                                assert(parse_from(cfg, sh, av, i0, vals0, pos0) == parse_from(
                                    cfg,
                                    sh,
                                    av,
                                    i0 + 1,
                                    vals0,
                                    pos0,
                                ));
                            }
                        }
                    },
                }
            } else if alen >= 1 && arg.as_str().get_char(0) == '-' {
                let alias = arg.as_str().substring_char(1, alen).to_owned();
                proof {
                    assert(!is_long_tok(t));
                    assert(is_short_tok(t));
                    assert(alias@ == short_key(t));
                }
                match assoc_idx(&self.short_options, &alias) {
                    None => {
                        proof {
                            lemma_assoc_find_absent(sh, alias@);
                            assert(parse_from(cfg, sh, av, i0, vals0, pos0) == parse_from(
                                cfg,
                                sh,
                                av,
                                i0 + 1,
                                vals0,
                                pos0,
                            ));
                        }
                    },
                    Some(si) => {
                        proof {
                            lemma_assoc_find_at(sh, alias@, si as int);
                            assert(sh[si as int] == (
                                self.short_options@[si as int].0@,
                                self.short_options@[si as int].1@,
                            ));
                        }
                        let name = self.short_options[si].1.clone();
                        let ghost kk = name@;
                        proof {
                            assert(assoc_find(sh, short_key(t)) == Some(kk));
                        }
                        match assoc_idx(&self.config_set, &name) {
                            None => {
                                proof {
                                    lemma_assoc_find_absent(cfg, kk);
                                    assert(parse_from(cfg, sh, av, i0, vals0, pos0) == parse_from(
                                        cfg,
                                        sh,
                                        av,
                                        i0 + 1,
                                        vals0,
                                        pos0,
                                    ));
                                }
                            },
                            Some(ci) => {
                                let ghost o = self.config_set@[ci as int].1@;
                                proof {
                                    lemma_assoc_find_at(cfg, kk, ci as int);
                                    assert(cfg[ci as int] == (self.config_set@[ci as int].0@, o));
                                    assert(assoc_find(cfg, kk) == Some(o));
                                }
                                let kind = self.config_set[ci].1.config_type;
                                proof {
                                    assert(o.config_type == kind);
                                }
                                if kind == ConfigKind::Boolean {
                                    proof {
                                        lemma_assoc_insert_distinct(
                                            vals0,
                                            kk,
                                            ValueModel::Boolean(true),
                                        );
                                    }
                                    assoc_set(&mut values, name, ValidValue::Boolean(true));
                                    proof {
                                        assert(entries_view(values@) == assoc_insert(
                                            vals0,
                                            kk,
                                            ValueModel::Boolean(true),
                                        ));
                                        assert(parse_opt_at(cfg, sh, av, i0, vals0, pos0, kk, o)
                                            == parse_from(
                                            cfg,
                                            sh,
                                            av,
                                            i0 + 1,
                                            entries_view(values@),
                                            pos0,
                                        ));
                                        assert(parse_from(cfg, sh, av, i0, vals0, pos0)
                                            == parse_from(
                                            cfg,
                                            sh,
                                            av,
                                            i0 + 1,
                                            entries_view(values@),
                                            pos0,
                                        ));
                                    }
                                } else if i + 1 < args.len() {
                                    proof {
                                        assert(av[i0 + 1] == args@[i0 + 1]@);
                                    }
                                    match from_env_val(args[i + 1].clone(), kind) {
                                        Ok(v) => {
                                            let ghost vv = v@;
                                            proof {
                                                assert(from_env_text_spec(
                                                    av[i0 + 1],
                                                    o.config_type,
                                                ) == Some(vv));
                                            }
                                            proof {
                                                lemma_assoc_insert_distinct(vals0, kk, vv);
                                            }
                                            assoc_set(&mut values, name, v);
                                            i = i + 1;
                                            proof {
                                                assert(entries_view(values@) == assoc_insert(
                                                    vals0,
                                                    kk,
                                                    vv,
                                                ));
                                                assert(parse_opt_at(
                                                    cfg,
                                                    sh,
                                                    av,
                                                    i0,
                                                    vals0,
                                                    pos0,
                                                    kk,
                                                    o,
                                                ) == parse_from(
                                                    cfg,
                                                    sh,
                                                    av,
                                                    i0 + 2,
                                                    entries_view(values@),
                                                    pos0,
                                                ));
                                                assert(parse_from(cfg, sh, av, i0, vals0, pos0)
                                                    == parse_from(
                                                    cfg,
                                                    sh,
                                                    av,
                                                    i0 + 2,
                                                    entries_view(values@),
                                                    pos0,
                                                ));
                                            }
                                        },
                                        Err(e) => {
                                            proof {
                                                assert(from_env_text_spec(
                                                    av[i0 + 1],
                                                    o.config_type,
                                                ) is None);
                                                assert(parse_opt_at(
                                                    cfg,
                                                    sh,
                                                    av,
                                                    i0,
                                                    vals0,
                                                    pos0,
                                                    kk,
                                                    o,
                                                ) == Err::<
                                                    (Seq<(Seq<char>, ValueModel)>, Seq<Seq<char>>),
                                                    ParseError,
                                                >(e));
                                                assert(parse_from(cfg, sh, av, i0, vals0, pos0)
                                                    == Err::<
                                                    (Seq<(Seq<char>, ValueModel)>, Seq<Seq<char>>),
                                                    ParseError,
                                                >(e));
                                            }
                                            return Err(e);
                                        },
                                    }
                                } else {
                                    proof {
                                        assert(parse_opt_at(cfg, sh, av, i0, vals0, pos0, kk, o)
                                            == parse_from(cfg, sh, av, i0 + 1, vals0, pos0));
                                        assert(parse_from(cfg, sh, av, i0, vals0, pos0)
                                            == parse_from(cfg, sh, av, i0 + 1, vals0, pos0));
                                    }
                                }
                            },
                        }
                    },
                }
            } else {
                proof {
                    assert(!is_long_tok(t));
                    assert(!is_short_tok(t));
                }
                positionals.push(arg.clone());
                proof {
                    assert(strs_view(positionals@) =~= pos0.push(t));
                    assert(parse_from(cfg, sh, av, i0, vals0, pos0) == parse_from(
                        cfg,
                        sh,
                        av,
                        i0 + 1,
                        vals0,
                        strs_view(positionals@),
                    ));
                }
            }
            proof {
                assert(parse_from(cfg, sh, av, i0, vals0, pos0) == parse_from(
                    cfg,
                    sh,
                    av,
                    i as int + 1,
                    entries_view(values@),
                    strs_view(positionals@),
                ));
            }
            i = i + 1;
        }
        Ok(OptionsResult { values, positionals })
    }
}

} // verus!
