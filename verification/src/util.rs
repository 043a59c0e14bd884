//! Where preset files are, what is said when one cannot be read or parsed,
//! and how the results of loading a list of them are sorted.
use vstd::prelude::*;
use vstd::string::StringExecFns;
use crate::model::preset::{Preset, PresetView};
use crate::presence::cycle::presets_view;
use crate::text::{last_segment, last_segment_of, lemma_last_segment_is_skip};

verus! {

/// The path of the preset file named `name`.
pub open spec fn preset_path_chars(name: Seq<char>) -> Seq<char> {
    "./presets/"@ + name + ".yaml"@
}

/// What is said of a file that cannot be read.
pub open spec fn read_failure_chars(path: Seq<char>) -> Seq<char> {
    "Failed to read file or file not found \""@ + path + "\""@
}

/// What is said of a file that cannot be parsed: it is named by the part of
/// its path after the last `'/'`.
pub open spec fn parse_failure_chars(path: Seq<char>) -> Seq<char> {
    "Failed to parse file \""@ + last_segment(path) + "\""@
}

/// The path of the preset file named `name`: `./presets/<name>.yaml`.
pub fn preset_path(name: &str) -> (res: String)
    ensures
        res@ == preset_path_chars(name@),
{
    let mut path = "./presets/".to_owned();
    path.append(name);
    path.append(".yaml");
    path
}

/// The message for a file at `path` that cannot be read.
pub fn read_failure_message(path: &str) -> (res: String)
    ensures
        res@ == read_failure_chars(path@),
{
    let mut message = "Failed to read file or file not found \"".to_owned();
    message.append(path);
    message.append("\"");
    message
}

/// The message for a file at `path` that cannot be parsed.
pub fn parse_failure_message(path: &str) -> (res: String)
    ensures
        res@ == parse_failure_chars(path@),
{
    let mut message = "Failed to parse file \"".to_owned();
    message.append(last_segment_of(path));
    message.append("\"");
    message
}

/// The value of the result of loading one preset.
pub open spec fn load_view(r: Result<Preset, String>) -> Result<PresetView, Seq<char>> {
    match r {
        Ok(p) => Ok(p@),
        Err(e) => Err(e@),
    }
}

/// The values of the results of loading a list of presets.
pub open spec fn loads_view(rs: Seq<Result<Preset, String>>) -> Seq<Result<PresetView, Seq<char>>> {
    rs.map_values(|r: Result<Preset, String>| load_view(r))
}

/// The values of a list of texts.
pub open spec fn strings_view(v: Seq<String>) -> Seq<Seq<char>> {
    v.map_values(|e: String| e@)
}

/// The presets that loaded, in order.
pub open spec fn loaded(rs: Seq<Result<PresetView, Seq<char>>>) -> Seq<PresetView>
    decreases rs.len(),
{
    if rs.len() == 0 {
        Seq::empty()
    } else {
        match rs.last() {
            Ok(p) => loaded(rs.drop_last()).push(p),
            Err(_) => loaded(rs.drop_last()),
        }
    }
}

/// The errors of the presets that did not load, in order.
pub open spec fn load_errors(rs: Seq<Result<PresetView, Seq<char>>>) -> Seq<Seq<char>>
    decreases rs.len(),
{
    if rs.len() == 0 {
        Seq::empty()
    } else {
        match rs.last() {
            Ok(_) => load_errors(rs.drop_last()),
            Err(e) => load_errors(rs.drop_last()).push(e),
        }
    }
}

/// Sorts the results of loading a list of presets into the presets that
/// loaded and the errors of those that did not, each in the order given.
pub fn sort_loaded(results: Vec<Result<Preset, String>>) -> (res: (Vec<Preset>, Vec<String>))
    ensures
        presets_view(res.0@) == loaded(loads_view(results@)),
        strings_view(res.1@) == load_errors(loads_view(results@)),
{
    let ghost all = loads_view(results@);
    let mut rest = results;
    let mut presets: Vec<Preset> = Vec::new();
    let mut errors: Vec<String> = Vec::new();
    let ghost mut done: int = 0;
    while rest.len() > 0
        invariant
            0 <= done <= all.len(),
            loads_view(rest@) == all.skip(done),
            presets_view(presets@) == loaded(all.take(done)),
            strings_view(errors@) == load_errors(all.take(done)),
        decreases rest.len(),
    {
        let ghost before_rest = rest@;
        let r = rest.remove(0);
        proof {
            assert(loads_view(before_rest).len() == before_rest.len());
            assert(load_view(r) == all.skip(done)[0]);
            assert(all.take(done + 1).drop_last() =~= all.take(done));
            assert forall|k: int| 0 <= k < rest@.len() implies loads_view(rest@)[k] == all.skip(
                done + 1,
            )[k] by {
                assert(rest@[k] == before_rest[k + 1]);
                assert(loads_view(before_rest)[k + 1] == all.skip(done)[k + 1]);
            }
            assert(loads_view(rest@) =~= all.skip(done + 1));
        }
        match r {
            Ok(p) => {
                let ghost before = presets@;
                presets.push(p);
                proof {
                    assert(presets_view(presets@) =~= presets_view(before).push(p@));
                }
            },
            Err(e) => {
                let ghost before = errors@;
                errors.push(e);
                proof {
                    assert(strings_view(errors@) =~= strings_view(before).push(e@));
                }
            },
        }
        proof {
            done = done + 1;
        }
    }
    proof {
        assert(all.take(done) =~= all);
    }
    (presets, errors)
}

/// A preset file that cannot be parsed is named by its file name: for a
/// preset name without `'/'`, the message names `<name>.yaml`.
pub proof fn lemma_preset_parse_failure_names_file(name: Seq<char>)
    requires
        forall|k: int| 0 <= k < name.len() ==> #[trigger] name[k] != '/',
    ensures
        parse_failure_chars(preset_path_chars(name)) == "Failed to parse file \""@ + name
            + ".yaml"@ + "\""@,
{
    reveal_strlit("./presets/");
    reveal_strlit(".yaml");
    let path = preset_path_chars(name);
    let dir = "./presets/"@;
    let ext = ".yaml"@;
    assert(dir.len() == 10);
    assert(ext.len() == 5);
    assert(path[9] == '/');
    assert forall|m: int| 10 <= m < path.len() implies #[trigger] path[m] != '/' by {
        if m < 10 + name.len() {
            assert(path[m] == name[m - 10]);
        } else {
            assert(path[m] == ext[m - 10 - name.len()]);
        }
    }
    lemma_last_segment_is_skip(path, 10);
    assert(path.skip(10) =~= name + ext);
}

/// Sorting the results of a load loses none and adds none: there are as
/// many presets and errors together as results.
pub proof fn lemma_sort_loaded_counts(rs: Seq<Result<PresetView, Seq<char>>>)
    ensures
        loaded(rs).len() + load_errors(rs).len() == rs.len(),
    decreases rs.len(),
{
    if rs.len() > 0 {
        lemma_sort_loaded_counts(rs.drop_last());
    }
}

/// A preset's path is the presets directory, the name, and the `.yaml`
/// extension, one after the other.
pub proof fn lemma_preset_path_parts(name: Seq<char>)
    ensures
        ({
            let path = preset_path_chars(name);
            &&& path.len() == name.len() + 15
            &&& path.take(10) == "./presets/"@
            &&& path.subrange(10, 10 + name.len() as int) == name
            &&& path.skip(10 + name.len() as int) == ".yaml"@
        }),
{
    reveal_strlit("./presets/");
    reveal_strlit(".yaml");
    let path = preset_path_chars(name);
    assert(path.take(10) =~= "./presets/"@);
    assert(path.subrange(10, 10 + name.len() as int) =~= name);
    assert(path.skip(10 + name.len() as int) =~= ".yaml"@);
}

/// Both failure messages end with the file they speak of between double
/// quotes: the whole path where it cannot be read, its last segment where
/// it cannot be parsed.
pub proof fn lemma_failure_messages_quote_the_file(path: Seq<char>)
    ensures
        ({
            let m = read_failure_chars(path);
            &&& m.len() >= path.len() + 2
            &&& m.last() == '"'
            &&& m[m.len() - path.len() - 2] == '"'
            &&& m.subrange(m.len() - path.len() - 1, m.len() - 1) == path
        }),
        ({
            let m = parse_failure_chars(path);
            let seg = last_segment(path);
            &&& m.len() >= seg.len() + 2
            &&& m.last() == '"'
            &&& m[m.len() - seg.len() - 2] == '"'
            &&& m.subrange(m.len() - seg.len() - 1, m.len() - 1) == seg
        }),
{
    reveal_strlit("Failed to read file or file not found \"");
    reveal_strlit("Failed to parse file \"");
    reveal_strlit("\"");
    let m = read_failure_chars(path);
    assert(m.subrange(m.len() - path.len() - 1, m.len() - 1) =~= path);
    let seg = last_segment(path);
    let q = parse_failure_chars(path);
    assert(q.subrange(q.len() - seg.len() - 1, q.len() - 1) =~= seg);
}

/// Sorting loads part by part gives what sorting them at once gives: the
/// presets (and errors) of a list followed by those of a second list; a
/// loaded preset is kept, an error is not a preset, and the other way for
/// the errors. So each preset and each error stays, in the order given.
pub proof fn lemma_sort_loaded_splits(
    a: Seq<Result<PresetView, Seq<char>>>,
    b: Seq<Result<PresetView, Seq<char>>>,
)
    ensures
        loaded(a + b) == loaded(a) + loaded(b),
        load_errors(a + b) == load_errors(a) + load_errors(b),
        forall|p: PresetView| #[trigger] loaded(seq![Ok(p)]) == seq![p],
        forall|e: Seq<char>| #[trigger] loaded(seq![Err(e)]) == Seq::<PresetView>::empty(),
        forall|e: Seq<char>| #[trigger] load_errors(seq![Err(e)]) == seq![e],
        forall|p: PresetView| #[trigger] load_errors(seq![Ok(p)]) == Seq::<Seq<char>>::empty(),
    decreases b.len(),
{
    assert forall|p: PresetView| #[trigger] loaded(seq![Ok(p)]) == seq![p] by {
        let s = seq![Ok::<PresetView, Seq<char>>(p)];
        assert(s.drop_last() =~= Seq::<Result<PresetView, Seq<char>>>::empty());
        assert(loaded(s.drop_last()) == Seq::<PresetView>::empty());
        assert(s.last() == Ok::<PresetView, Seq<char>>(p));
        assert(loaded(s) == loaded(s.drop_last()).push(p));
        assert(Seq::<PresetView>::empty().push(p) =~= seq![p]);
    }
    assert forall|e: Seq<char>| #[trigger] loaded(seq![Err(e)]) == Seq::<PresetView>::empty() by {
        let s = seq![Err::<PresetView, Seq<char>>(e)];
        assert(s.drop_last() =~= Seq::<Result<PresetView, Seq<char>>>::empty());
        assert(loaded(s.drop_last()) == Seq::<PresetView>::empty());
        assert(s.last() == Err::<PresetView, Seq<char>>(e));
    }
    assert forall|e: Seq<char>| #[trigger] load_errors(seq![Err(e)]) == seq![e] by {
        let s = seq![Err::<PresetView, Seq<char>>(e)];
        assert(s.drop_last() =~= Seq::<Result<PresetView, Seq<char>>>::empty());
        assert(load_errors(s.drop_last()) == Seq::<Seq<char>>::empty());
        assert(s.last() == Err::<PresetView, Seq<char>>(e));
        assert(load_errors(s) == load_errors(s.drop_last()).push(e));
        assert(Seq::<Seq<char>>::empty().push(e) =~= seq![e]);
    }
    assert forall|p: PresetView| #[trigger] load_errors(seq![Ok(p)]) == Seq::<Seq<char>>::empty()
        by {
        let s = seq![Ok::<PresetView, Seq<char>>(p)];
        assert(s.drop_last() =~= Seq::<Result<PresetView, Seq<char>>>::empty());
        assert(load_errors(s.drop_last()) == Seq::<Seq<char>>::empty());
        assert(s.last() == Ok::<PresetView, Seq<char>>(p));
    }
    if b.len() == 0 {
        assert(a + b =~= a);
        assert(loaded(a) + loaded(b) =~= loaded(a));
        assert(load_errors(a) + load_errors(b) =~= load_errors(a));
    } else {
        lemma_sort_loaded_splits(a, b.drop_last());
        assert((a + b).drop_last() =~= a + b.drop_last());
        assert((a + b).last() == b.last());
        match b.last() {
            Ok(p) => {
                assert(loaded(a) + loaded(b.drop_last()).push(p) =~= (loaded(a) + loaded(
                    b.drop_last(),
                )).push(p));
            },
            Err(e) => {
                assert(load_errors(a) + load_errors(b.drop_last()).push(e) =~= (load_errors(a)
                    + load_errors(b.drop_last())).push(e));
            },
        }
    }
}

} // verus!
