//! Laws of the engine, stated over the same spec functions the executable
//! contracts use and proved once and for all.

use vstd::prelude::*;
use crate::assoc::assoc_find;
use crate::assoc::assoc_has;
use crate::assoc::assoc_insert;
use crate::assoc::lemma_assoc_find_insert;
use crate::num_text::lemma_parse_dec_str;
use crate::registry::OptionModel;
use crate::registry::name_ok;
use crate::registry::register_batch;
use crate::values::ConfigKind;
use crate::values::ValueModel;
use crate::values::env_text_of;
use crate::values::from_env_text_spec;
use crate::values::kind_of;
use crate::values::wf_value;

verus! {

/// Registering an alphanumeric name and recording a fresh short alias
/// leaves both resolvable: the name looks up the freshly forced descriptor
/// and the alias looks up the name.
pub proof fn lemma_registration_resolvable(
    cfg: Seq<(Seq<char>, OptionModel)>,
    shorts: Seq<(Seq<char>, Seq<char>)>,
    name: Seq<char>,
    o: OptionModel,
    kind: ConfigKind,
    list: bool,
    alias: Seq<char>,
)
    requires
        name_ok(name),
        !assoc_has(shorts, alias),
    ensures
        assoc_find(register_batch(cfg, seq![(name, o)], kind, list), name) == Some(
            OptionModel {
                config_type: kind,
                multiple: if list {
                    true
                } else {
                    o.multiple
                },
                ..o
            },
        ),
        assoc_find(assoc_insert(shorts, alias, name), alias) == Some(name),
{
    let o2 = OptionModel {
        config_type: kind,
        multiple: if list {
            true
        } else {
            o.multiple
        },
        ..o
    };
    let batch = seq![(name, o)];
    assert(batch.drop_first() =~= Seq::<(Seq<char>, OptionModel)>::empty());
    assert(register_batch(cfg, batch, kind, list) == register_batch(
        assoc_insert(cfg, name, o2),
        batch.drop_first(),
        kind,
        list,
    ));
    lemma_assoc_find_insert(cfg, name, o2, name);
    lemma_assoc_find_insert(shorts, alias, name, alias);
}

/// Registration touches only the names in the batch: any other key looks
/// up exactly what it looked up before.
pub proof fn lemma_register_batch_untouched(
    cfg: Seq<(Seq<char>, OptionModel)>,
    batch: Seq<(Seq<char>, OptionModel)>,
    kind: ConfigKind,
    list: bool,
    k: Seq<char>,
)
    requires
        forall|j: int| 0 <= j < batch.len() ==> batch[j].0 != k,
    ensures
        assoc_find(register_batch(cfg, batch, kind, list), k) == assoc_find(cfg, k),
    decreases batch.len(),
{
    if batch.len() > 0 {
        let o2 = OptionModel {
            config_type: kind,
            multiple: if list {
                true
            } else {
                batch[0].1.multiple
            },
            ..batch[0].1
        };
        lemma_assoc_find_insert(cfg, batch[0].0, o2, k);
        assert(forall|j: int|
            0 <= j < batch.drop_first().len() ==> batch.drop_first()[j].0 != k);
        lemma_register_batch_untouched(
            assoc_insert(cfg, batch[0].0, o2),
            batch.drop_first(),
            kind,
            list,
            k,
        );
    }
}

/// Every name in a registration batch is resolvable afterwards, and its
/// descriptor carries the kind the batch forces (and, for a list
/// registration, the multiplicity).
pub proof fn lemma_register_batch_resolves(
    cfg: Seq<(Seq<char>, OptionModel)>,
    batch: Seq<(Seq<char>, OptionModel)>,
    kind: ConfigKind,
    list: bool,
    name: Seq<char>,
)
    requires
        exists|j: int| 0 <= j < batch.len() && batch[j].0 == name,
    ensures
        match assoc_find(register_batch(cfg, batch, kind, list), name) {
            Some(o) => o.config_type == kind && (list ==> o.multiple),
            None => false,
        },
    decreases batch.len(),
{
    let j = choose|j: int| 0 <= j < batch.len() && batch[j].0 == name;
    let o2 = OptionModel {
        config_type: kind,
        multiple: if list {
            true
        } else {
            batch[0].1.multiple
        },
        ..batch[0].1
    };
    let cfg2 = assoc_insert(cfg, batch[0].0, o2);
    if exists|j2: int| 0 <= j2 < batch.drop_first().len() && batch.drop_first()[j2].0 == name {
        lemma_register_batch_resolves(cfg2, batch.drop_first(), kind, list, name);
    } else {
        if j > 0 {
            assert(batch.drop_first()[j - 1].0 == name);
        }
        assert(batch[0].0 == name);
        assert(forall|j2: int|
            0 <= j2 < batch.drop_first().len() ==> batch.drop_first()[j2].0 != name);
        lemma_register_batch_untouched(cfg2, batch.drop_first(), kind, list, name);
        lemma_assoc_find_insert(cfg, name, o2, name);
    }
}

/// Once a short alias is recorded for one name, it resolves to that name:
/// a later registration of a different name under the same alias is the
/// duplicate the registry rejects, while the same name may re-claim it.
pub proof fn lemma_duplicate_alias(
    shorts: Seq<(Seq<char>, Seq<char>)>,
    alias: Seq<char>,
    name: Seq<char>,
)
    ensures
        assoc_find(assoc_insert(shorts, alias, name), alias) == Some(name),
        assoc_has(assoc_insert(shorts, alias, name), alias),
{
    lemma_assoc_find_insert(shorts, alias, name, alias);
}

/// The environment encoding round-trips: decoding a value's environment
/// text at the value's own kind reproduces the value, booleans included,
/// whose `"0"` decodes to false and `"1"` to true.
pub proof fn lemma_env_round_trip(v: ValueModel)
    requires
        wf_value(v),
    ensures
        from_env_text_spec(env_text_of(v), kind_of(v)) == Some(v),
{
    match v {
        ValueModel::Number(n) => {
            lemma_parse_dec_str(n);
        },
        ValueModel::String(_) => {},
        ValueModel::Boolean(b) => {
            reveal_strlit("0");
            reveal_strlit("1");
            assert("0"@.len() == 1 && "1"@.len() == 1);
            assert("0"@[0] == '0' && "1"@[0] == '1');
            if b {
                assert(env_text_of(v) == "1"@);
            } else {
                assert(env_text_of(v) == "0"@);
                assert("0"@ != "1"@);
            }
        },
    }
}

} // verus!
