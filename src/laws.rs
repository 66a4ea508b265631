//! Properties of the logger, each stated over the models and proved.
use crate::logger::{
    kept, model_wf, reconfigured, recorded, roll_day, rotate, route_line, run_lines, shown,
    step_line, write_spec, Effect, LoggerModel,
};
use crate::msg::{
    count_breaks, lemma_split_lines, lemma_split_single, line_text, split_lines, split_message,
    MessageModel,
};
use crate::naming::{file_name, first_free_index, lemma_file_name_injective};
use crate::setting::SettingModel;
use crate::level::LogLevel;
use crate::time::Time;
use vstd::prelude::*;
use vstd::set_lib::{lemma_int_range, lemma_len_subset, set_int_range};

verus! {

/// A message whose body holds `n` line breaks splits into exactly `n + 1`
/// messages; none of them holds a line break, and each has the level, time and
/// origin of the message it came from.
pub proof fn split_gives_one_message_per_line(m: MessageModel)
    ensures
        split_message(m).len() == count_breaks(m.body) + 1,
        forall|k: int|
            0 <= k < split_message(m).len() ==> {
                let p = #[trigger] split_message(m)[k];
                &&& !p.body.contains('\n')
                &&& p.level == m.level
                &&& p.time == m.time
                &&& p.origin == m.origin
            },
{
    lemma_split_lines(m.body);
    assert forall|k: int| 0 <= k < split_message(m).len() implies !(#[trigger] split_message(
        m,
    )[k]).body.contains('\n') by {
        assert(split_message(m)[k].body == split_lines(m.body)[k]);
    }
}

/// With a size limit `L > 0`, no file takes more than `L` lines: where the
/// current file holds fewer than `L` lines, a one-line message brings it to at
/// most `L`, and afterwards the current file again holds fewer than `L`; the
/// line that fills a file to exactly `L` closes it and moves on to the next index.
pub proof fn rotation_is_exact(s: LoggerModel, line: MessageModel, day: Option<Seq<char>>)
    requires
        model_wf(s),
        s.setting.single_length > 0,
        s.used < s.setting.single_length,
    ensures
        run_lines(s, seq![line], seq![day]).0.used <= s.setting.single_length,
        write_spec(s, seq![line], seq![day]).0.used < s.setting.single_length,
        !s.setting.disabled && run_lines(s, seq![line], seq![day]).0.used
            == s.setting.single_length ==> {
            let s1 = run_lines(s, seq![line], seq![day]).0;
            let s2 = write_spec(s, seq![line], seq![day]).0;
            &&& s2.index == s1.index + 1
            &&& s2.used == 0
            &&& !s2.file_open
        },
{
    let lines = seq![line];
    let days = seq![day];
    assert(lines.drop_last() =~= Seq::<MessageModel>::empty());
    assert(days.drop_last() =~= Seq::<Option<Seq<char>>>::empty());
    assert(run_lines(s, lines.drop_last(), days.drop_last()) == (s, Seq::<Effect>::empty()));
    assert(run_lines(s, lines, days).0 == step_line(s, line, day).0);
    assert(run_lines(s, lines, days).1 =~= step_line(s, line, day).1);
}

/// The same for `record`: with a size limit `L > 0`, recording a message
/// without line breaks on a logger whose current file holds fewer than `L`
/// lines leaves it holding fewer than `L`, so over any run of such records
/// no file takes more than `L` lines.
pub proof fn record_keeps_files_within_limit(
    s: LoggerModel,
    level: LogLevel,
    body: Seq<char>,
    origin: Seq<char>,
    t: Time,
    days: Seq<Option<Seq<char>>>,
    s2: LoggerModel,
    effects: Seq<Effect>,
)
    requires
        model_wf(s),
        s.setting.single_length > 0,
        s.used < s.setting.single_length,
        !body.contains('\n'),
        recorded(s, level, body, origin, t, days, s2, effects),
    ensures
        s2.used < s.setting.single_length,
{
    let m = MessageModel { level, body, time: t, origin };
    lemma_split_single(body);
    let line = split_message(m)[0];
    assert(split_message(m) =~= seq![line]);
    assert(days =~= seq![days[0]]);
    rotation_is_exact(LoggerModel { init: true, ..s }, line, days[0]);
}

/// A line reaches the console exactly when printing is on and the console
/// threshold admits its level, and reaches the file exactly when the file
/// threshold admits its level; neither decision depends on the other.
pub proof fn routing_is_independent(s: LoggerModel, line: MessageModel, day: Option<Seq<char>>)
    requires
        !s.setting.disabled,
    ensures
        write_spec(s, seq![line], seq![day]).1.contains(Effect::Print(line_text(line)))
            <==> shown(s.setting, line.level),
        write_spec(s, seq![line], seq![day]).1.contains(Effect::Append(line_text(line)))
            <==> kept(s.setting, line.level),
{
    let lines = seq![line];
    let days = seq![day];
    assert(lines.drop_last() =~= Seq::<MessageModel>::empty());
    assert(days.drop_last() =~= Seq::<Option<Seq<char>>>::empty());
    let text = line_text(line);
    let e = write_spec(s, lines, days).1;
    assert(run_lines(s, lines.drop_last(), days.drop_last()) == (s, Seq::<Effect>::empty()));
    assert(run_lines(s, lines, days).0 == step_line(s, line, day).0);
    assert(run_lines(s, lines, days).1 =~= step_line(s, line, day).1);
    let (s1, e1) = crate::logger::roll_day(s, day);
    let (s2, e2) = route_line(s1, line);
    let (s3, e3) = crate::logger::rotate(s2);
    assert(e =~= Seq::<Effect>::empty() + (e1 + e2) + e3);
    assert(s1.setting == s.setting);
    // the day roll and the size check emit nothing but `Close`
    assert(forall|k: int| 0 <= k < e1.len() ==> e1[k] == Effect::Close);
    assert(forall|k: int| 0 <= k < e3.len() ==> e3[k] == Effect::Close);
    if shown(s.setting, line.level) {
        assert(e2[0] == Effect::Print(text));
        assert(e[e1.len() as int] == e2[0]);
    }
    if kept(s.setting, line.level) {
        assert(e2[e2.len() - 1] == Effect::Append(text));
        assert(e[e1.len() + e2.len() - 1] == e2[e2.len() - 1]);
    }
    if e.contains(Effect::Print(text)) {
        let k = choose|k: int| 0 <= k < e.len() && e[k] == Effect::Print(text);
        if e1.len() <= k < e1.len() + e2.len() {
            assert(e2[k - e1.len()] == Effect::Print(text));
        }
    }
    if e.contains(Effect::Append(text)) {
        let k = choose|k: int| 0 <= k < e.len() && e[k] == Effect::Append(text);
        if e1.len() <= k < e1.len() + e2.len() {
            assert(e2[k - e1.len()] == Effect::Append(text));
        }
    }
}

/// There is a first index whose file is missing, whatever files exist.
proof fn lemma_first_free_exists(prefix: Seq<char>, names: Seq<Seq<char>>)
    ensures
        exists|i: nat|
            !names.contains(file_name(prefix, i)) && forall|j: nat|
                j < i ==> names.contains(#[trigger] file_name(prefix, j)),
{
    lemma_int_range(0, names.len() as int);
    lemma_free_from(prefix, names, 0, Set::empty());
}

/// Searches for the first missing index from `i` on, where `hit` holds, for
/// each index below `i`, a position of its file among `names`.
proof fn lemma_free_from(prefix: Seq<char>, names: Seq<Seq<char>>, i: nat, hit: Set<int>)
    requires
        forall|j: nat| j < i ==> names.contains(#[trigger] file_name(prefix, j)),
        hit.finite(),
        hit.len() == i,
        hit.subset_of(set_int_range(0, names.len() as int)),
        set_int_range(0, names.len() as int).finite(),
        set_int_range(0, names.len() as int).len() == names.len(),
        forall|k: int|
            #![trigger hit.contains(k)]
            hit.contains(k) ==> exists|j: nat| j < i && names[k] == #[trigger] file_name(prefix, j),
    ensures
        exists|r: nat|
            !names.contains(file_name(prefix, r)) && forall|j: nat|
                j < r ==> names.contains(#[trigger] file_name(prefix, j)),
    decreases names.len() - i,
{
    lemma_len_subset(hit, set_int_range(0, names.len() as int));
    if !names.contains(file_name(prefix, i)) {
        assert(!names.contains(file_name(prefix, i)) && forall|j: nat|
            j < i ==> names.contains(#[trigger] file_name(prefix, j)));
    } else {
        let k = choose|k: int| 0 <= k < names.len() && names[k] == file_name(prefix, i);
        if hit.contains(k) {
            let j = choose|j: nat| j < i && names[k] == #[trigger] file_name(prefix, j);
            lemma_file_name_injective(prefix, i, j);
        }
        let hit2 = hit.insert(k);
        assert forall|m: int| #![trigger hit2.contains(m)] hit2.contains(m) implies exists|j: nat|
            j < i + 1 && names[m] == #[trigger] file_name(prefix, j) by {
            if m == k {
                assert(names[m] == file_name(prefix, i));
            } else {
                assert(hit.contains(m));
            }
        }
        lemma_len_subset(hit2, set_int_range(0, names.len() as int));
        lemma_free_from(prefix, names, i + 1, hit2);
    }
}

/// Where the files `prefix_0.log` .. `prefix_k.log` already exist, the index
/// a logger resumes at is past them, its file does not exist, and it is `k + 1`
/// where `prefix_<k+1>.log` does not exist.
pub proof fn recovery_skips_existing(prefix: Seq<char>, names: Seq<Seq<char>>, k: nat)
    requires
        forall|j: nat| j <= k ==> names.contains(#[trigger] file_name(prefix, j)),
    ensures
        first_free_index(prefix, names) > k,
        !names.contains(file_name(prefix, first_free_index(prefix, names))),
        !names.contains(file_name(prefix, k + 1)) ==> first_free_index(prefix, names) == k + 1,
{
    lemma_first_free_exists(prefix, names);
    let c = first_free_index(prefix, names);
    if c <= k {
        assert(names.contains(file_name(prefix, c)));
    }
    if !names.contains(file_name(prefix, k + 1)) && c > k + 1 {
        assert(names.contains(file_name(prefix, k + 1)));
    }
}

/// After `init` or `set`, where the files `<prefix>_0.log` .. `<prefix>_k.log`
/// of the date group read exist in the directory, the logger resumes past
/// them, at `k + 1` where `<prefix>_<k+1>.log` does not exist, and never at an
/// existing file.
pub proof fn reconfigure_resumes_after_existing(
    s: LoggerModel,
    setting: SettingModel,
    names: Seq<Seq<char>>,
    s2: LoggerModel,
    effects: Seq<Effect>,
    k: nat,
)
    requires
        reconfigured(s, setting, names, s2, effects),
        forall|j: nat| j <= k ==> names.contains(#[trigger] file_name(s2.prefix, j)),
    ensures
        s2.index > k,
        !names.contains(file_name(s2.prefix, s2.index)),
        !names.contains(file_name(s2.prefix, k + 1)) ==> s2.index == k + 1,
{
    recovery_skips_existing(s2.prefix, names, k);
}

/// While disabled, recording a message prints nothing, writes nothing and
/// leaves the files, the index and the line count as they were.
pub proof fn disabled_logger_is_inert(
    s: LoggerModel,
    level: LogLevel,
    body: Seq<char>,
    origin: Seq<char>,
    t: Time,
    days: Seq<Option<Seq<char>>>,
    s2: LoggerModel,
    effects: Seq<Effect>,
)
    requires
        s.setting.disabled,
        recorded(s, level, body, origin, t, days, s2, effects),
    ensures
        effects.len() == 0,
        s2 == (LoggerModel { init: true, ..s }),
{
}

/// Whether `s2` and `effects` are what recording some message does to `s`.
pub open spec fn some_record(s: LoggerModel, s2: LoggerModel, effects: Seq<Effect>) -> bool {
    exists|
        level: LogLevel,
        body: Seq<char>,
        origin: Seq<char>,
        t: Time,
        days: Seq<Option<Seq<char>>>,
    | #[trigger] recorded(s, level, body, origin, t, days, s2, effects)
}

/// Over any run of records on a disabled logger, nothing is printed or
/// written, and the file, index, line count, date group and configuration all
/// stay as they were; so enabling afterwards resumes where output stopped.
pub proof fn disabled_run_changes_nothing(states: Seq<LoggerModel>, effects: Seq<Seq<Effect>>)
    requires
        states.len() == effects.len() + 1,
        states[0].setting.disabled,
        forall|i: int|
            0 <= i < effects.len() ==> #[trigger] some_record(states[i], states[i + 1], effects[i]),
    ensures
        forall|i: int| 0 <= i < effects.len() ==> (#[trigger] effects[i]).len() == 0,
        forall|i: int|
            0 <= i < states.len() ==> #[trigger] states[i] == (LoggerModel {
                init: states[i].init,
                ..states[0]
            }),
{
    lemma_disabled_prefix(states, effects, effects.len() as int);
}

proof fn lemma_disabled_prefix(states: Seq<LoggerModel>, effects: Seq<Seq<Effect>>, n: int)
    requires
        0 <= n <= effects.len(),
        states.len() == effects.len() + 1,
        states[0].setting.disabled,
        forall|i: int|
            0 <= i < effects.len() ==> #[trigger] some_record(states[i], states[i + 1], effects[i]),
    ensures
        forall|i: int| 0 <= i < n ==> (#[trigger] effects[i]).len() == 0,
        forall|i: int|
            0 <= i <= n ==> #[trigger] states[i] == (LoggerModel {
                init: states[i].init,
                ..states[0]
            }),
    decreases n,
{
    if n > 0 {
        lemma_disabled_prefix(states, effects, n - 1);
        let i = n - 1;
        assert(states[i] == (LoggerModel { init: states[i].init, ..states[0] }));
        assert(some_record(states[i], states[i + 1], effects[i]));
        let (level, body, origin, t, days) = choose|
            level: LogLevel,
            body: Seq<char>,
            origin: Seq<char>,
            t: Time,
            days: Seq<Option<Seq<char>>>,
        | #[trigger] recorded(states[i], level, body, origin, t, days, states[i + 1], effects[i]);
        disabled_logger_is_inert(states[i], level, body, origin, t, days, states[i + 1], effects[i]);
        assert(states[n] == (LoggerModel { init: states[n].init, ..states[0] }));
    }
}

/// The texts of the lines that `effects` append to files, in order.
pub open spec fn appended(effects: Seq<Effect>) -> Seq<Seq<char>>
    decreases effects.len(),
{
    if effects.len() == 0 {
        seq![]
    } else {
        appended(effects.drop_last()) + match effects.last() {
            Effect::Append(l) => seq![l],
            _ => seq![],
        }
    }
}

/// The texts of the lines that `effects` print on the console, in order.
pub open spec fn printed(effects: Seq<Effect>) -> Seq<Seq<char>>
    decreases effects.len(),
{
    if effects.len() == 0 {
        seq![]
    } else {
        printed(effects.drop_last()) + match effects.last() {
            Effect::Print(l) => seq![l],
            _ => seq![],
        }
    }
}

/// The texts of the lines among `lines` that `setting` writes to file, in order.
pub open spec fn kept_texts(setting: SettingModel, lines: Seq<MessageModel>) -> Seq<Seq<char>>
    decreases lines.len(),
{
    if lines.len() == 0 {
        seq![]
    } else {
        kept_texts(setting, lines.drop_last()) + if kept(setting, lines.last().level) {
            seq![line_text(lines.last())]
        } else {
            seq![]
        }
    }
}

/// The texts of the lines among `lines` that `setting` prints, in order.
pub open spec fn shown_texts(setting: SettingModel, lines: Seq<MessageModel>) -> Seq<Seq<char>>
    decreases lines.len(),
{
    if lines.len() == 0 {
        seq![]
    } else {
        shown_texts(setting, lines.drop_last()) + if shown(setting, lines.last().level) {
            seq![line_text(lines.last())]
        } else {
            seq![]
        }
    }
}

proof fn lemma_effects_concat(a: Seq<Effect>, b: Seq<Effect>)
    ensures
        appended(a + b) == appended(a) + appended(b),
        printed(a + b) == printed(a) + printed(b),
    decreases b.len(),
{
    if b.len() == 0 {
        assert(a + b =~= a);
        assert(appended(a) + appended(b) =~= appended(a));
        assert(printed(a) + printed(b) =~= printed(a));
    } else {
        lemma_effects_concat(a, b.drop_last());
        assert((a + b).drop_last() =~= a + b.drop_last());
        assert((a + b).last() == b.last());
        assert(appended(a + b) =~= appended(a) + appended(b));
        assert(printed(a + b) =~= printed(a) + printed(b));
    }
}

/// Effects made only of `Open` and `Close` append and print nothing.
proof fn lemma_no_lines(e: Seq<Effect>)
    requires
        forall|k: int| 0 <= k < e.len() ==> (#[trigger] e[k] is Open || e[k] is Close),
    ensures
        appended(e) == Seq::<Seq<char>>::empty(),
        printed(e) == Seq::<Seq<char>>::empty(),
    decreases e.len(),
{
    if e.len() > 0 {
        lemma_no_lines(e.drop_last());
        assert(e.last() == e[e.len() - 1]);
        assert(appended(e) =~= Seq::<Seq<char>>::empty());
        assert(printed(e) =~= Seq::<Seq<char>>::empty());
    }
}

/// One effect appends, or prints, at most its own line.
proof fn lemma_one_effect(e: Effect)
    ensures
        appended(seq![e]) == match e {
            Effect::Append(l) => seq![l],
            _ => Seq::<Seq<char>>::empty(),
        },
        printed(seq![e]) == match e {
            Effect::Print(l) => seq![l],
            _ => Seq::<Seq<char>>::empty(),
        },
{
    assert(seq![e].drop_last() =~= Seq::<Effect>::empty());
    assert(seq![e].last() == e);
    assert(appended(Seq::<Effect>::empty()) == Seq::<Seq<char>>::empty());
    assert(printed(Seq::<Effect>::empty()) == Seq::<Seq<char>>::empty());
    match e {
        Effect::Append(l) => {
            assert(Seq::<Seq<char>>::empty() + seq![l] =~= seq![l]);
        },
        Effect::Print(l) => {
            assert(Seq::<Seq<char>>::empty() + seq![l] =~= seq![l]);
        },
        _ => {},
    }
    assert(appended(seq![e]) =~= match e {
        Effect::Append(l) => seq![l],
        _ => Seq::<Seq<char>>::empty(),
    });
    assert(printed(seq![e]) =~= match e {
        Effect::Print(l) => seq![l],
        _ => Seq::<Seq<char>>::empty(),
    });
}

/// One line appends its text where the file threshold admits it, and prints
/// it where the console admits it.
proof fn lemma_step_routes(s: LoggerModel, line: MessageModel, day: Option<Seq<char>>)
    ensures
        step_line(s, line, day).0.setting == s.setting,
        appended(step_line(s, line, day).1) == if kept(s.setting, line.level) {
            seq![line_text(line)]
        } else {
            Seq::<Seq<char>>::empty()
        },
        printed(step_line(s, line, day).1) == if shown(s.setting, line.level) {
            seq![line_text(line)]
        } else {
            Seq::<Seq<char>>::empty()
        },
{
    let (sa, ea) = roll_day(s, day);
    let (sb, eb) = route_line(sa, line);
    lemma_no_lines(ea);
    let text = line_text(line);
    let pr = if shown(s.setting, line.level) {
        seq![Effect::Print(text)]
    } else {
        seq![]
    };
    let op = if sa.file_open {
        seq![]
    } else {
        seq![Effect::Open(crate::logger::current_path(sa))]
    };
    lemma_no_lines(op);
    lemma_no_lines(Seq::<Effect>::empty());
    lemma_one_effect(Effect::Print(text));
    lemma_one_effect(Effect::Append(text));
    lemma_effects_concat(ea, eb);
    if kept(s.setting, line.level) {
        assert(eb == pr + op + seq![Effect::Append(text)]);
        lemma_effects_concat(pr + op, seq![Effect::Append(text)]);
        lemma_effects_concat(pr, op);
    } else {
        assert(eb == pr);
    }
    assert(appended(step_line(s, line, day).1) =~= if kept(s.setting, line.level) {
        seq![text]
    } else {
        Seq::<Seq<char>>::empty()
    });
    assert(printed(step_line(s, line, day).1) =~= if shown(s.setting, line.level) {
        seq![text]
    } else {
        Seq::<Seq<char>>::empty()
    });
}

proof fn lemma_run_routes(s: LoggerModel, lines: Seq<MessageModel>, days: Seq<Option<Seq<char>>>)
    ensures
        run_lines(s, lines, days).0.setting == s.setting,
        appended(run_lines(s, lines, days).1) == kept_texts(s.setting, lines),
        printed(run_lines(s, lines, days).1) == shown_texts(s.setting, lines),
    decreases lines.len(),
{
    if lines.len() > 0 {
        lemma_run_routes(s, lines.drop_last(), days.drop_last());
        let (s1, e1) = run_lines(s, lines.drop_last(), days.drop_last());
        lemma_step_routes(s1, lines.last(), days.last());
        let (s2, e2) = step_line(s1, lines.last(), days.last());
        lemma_effects_concat(e1, e2);
        assert(appended(run_lines(s, lines, days).1) =~= kept_texts(s.setting, lines));
        assert(printed(run_lines(s, lines, days).1) =~= shown_texts(s.setting, lines));
    }
}

/// Of a message of any number of lines, on a logger that is not disabled,
/// exactly the lines whose level the file threshold admits are appended, and
/// exactly those that printing and the console threshold admit are printed,
/// each in order and each whole.
pub proof fn routing_of_whole_message(
    s: LoggerModel,
    lines: Seq<MessageModel>,
    days: Seq<Option<Seq<char>>>,
)
    requires
        !s.setting.disabled,
    ensures
        appended(write_spec(s, lines, days).1) == kept_texts(s.setting, lines),
        printed(write_spec(s, lines, days).1) == shown_texts(s.setting, lines),
{
    lemma_run_routes(s, lines, days);
    let (s1, e1) = run_lines(s, lines, days);
    let (s2, e2) = rotate(s1);
    lemma_no_lines(e2);
    lemma_effects_concat(e1, e2);
    assert(appended(e1) + appended(e2) =~= appended(e1));
    assert(printed(e1) + printed(e2) =~= printed(e1));
}

/// Disabling and enabling again gives back the logger as it was, so output
/// resumes with the same file, index and line count.
pub proof fn enable_resumes_where_disable_stopped(s: LoggerModel)
    requires
        !s.setting.disabled,
    ensures
        (LoggerModel {
            setting: SettingModel {
                disabled: false,
                ..(LoggerModel { setting: SettingModel { disabled: true, ..s.setting }, ..s }).setting
            },
            ..(LoggerModel { setting: SettingModel { disabled: true, ..s.setting }, ..s })
        }) == s,
{
}

} // verus!
