//! The activity that is sent to Discord, built from a preset.
//!
//! An activity here holds what Discord is told: each text is set or unset,
//! and the list of buttons is unset when it is empty (Discord refuses an
//! empty list, so the client library leaves it out).
use vstd::prelude::*;
use crate::model::preset::{
    assets_view, buttons_view, text_view, Assets, AssetsView, Button, ButtonView, Preset,
    PresetView,
};
use crate::text::{lemma_trim_idempotent, trim, trimmed};

verus! {

broadcast use vstd::seq_lib::group_seq_properties;

/// The activity of a presence.
pub struct Activity {
    pub state: Option<String>,
    pub details: Option<String>,
    /// Start of the elapsed time, in milliseconds since the Unix epoch.
    pub start_timestamp: Option<i64>,
    pub assets: Option<Assets>,
    /// The buttons; none are shown where this is empty.
    pub buttons: Vec<Button>,
}

/// What an `Activity` holds.
#[verifier::ext_equal]
pub struct ActivityView {
    pub state: Option<Seq<char>>,
    pub details: Option<Seq<char>>,
    pub start_timestamp: Option<i64>,
    pub assets: Option<AssetsView>,
    pub buttons: Seq<ButtonView>,
}

impl View for Activity {
    type V = ActivityView;

    open spec fn view(&self) -> ActivityView {
        ActivityView {
            state: text_view(self.state),
            details: text_view(self.details),
            start_timestamp: self.start_timestamp,
            assets: assets_view(self.assets),
            buttons: buttons_view(self.buttons@),
        }
    }
}

/// Discord shows at most this many buttons.
pub const MAX_BUTTONS: usize = 2;

/// The first two elements of `s` (all of it where it is shorter).
pub open spec fn first_two<A>(s: Seq<A>) -> Seq<A> {
    if s.len() <= MAX_BUTTONS {
        s
    } else {
        s.take(MAX_BUTTONS as int)
    }
}

/// The buttons of a preset as written: the first two.
pub open spec fn listed_buttons(b: Option<Seq<ButtonView>>) -> Seq<ButtonView> {
    match b {
        Some(s) => first_two(s),
        None => Seq::empty(),
    }
}

/// The activity of a preset taken as written: every text that the preset
/// sets, the first two buttons, and the given start.
pub open spec fn plain_activity(p: PresetView, start: Option<i64>) -> ActivityView {
    ActivityView {
        state: p.state,
        details: p.details,
        start_timestamp: start,
        assets: p.assets,
        buttons: listed_buttons(p.buttons),
    }
}

/// A text trimmed, and left out where nothing remains of it.
pub open spec fn trimmed_text(t: Option<Seq<char>>) -> Option<Seq<char>> {
    match t {
        Some(s) => if trimmed(s).len() == 0 {
            None
        } else {
            Some(trimmed(s))
        },
        None => None,
    }
}

/// Assets with each text trimmed, and left out where nothing remains of it.
pub open spec fn trimmed_assets(a: AssetsView) -> AssetsView {
    AssetsView {
        large_image: trimmed_text(a.large_image),
        large_text: trimmed_text(a.large_text),
        small_image: trimmed_text(a.small_image),
        small_text: trimmed_text(a.small_text),
    }
}

/// A button with its label and url trimmed.
pub open spec fn trimmed_button(b: ButtonView) -> ButtonView {
    ButtonView { label: trimmed(b.label), url: trimmed(b.url) }
}

/// Whether a button has both a label and a url.
pub open spec fn is_usable(b: ButtonView) -> bool {
    b.label.len() > 0 && b.url.len() > 0
}

/// `is_usable` as a predicate on buttons.
pub open spec fn usable() -> spec_fn(ButtonView) -> bool {
    |b: ButtonView| is_usable(b)
}

/// The first two buttons, trimmed.
pub open spec fn button_candidates(s: Seq<ButtonView>) -> Seq<ButtonView> {
    first_two(s).map_values(|b: ButtonView| trimmed_button(b))
}

/// The buttons that are shown of a preset's list: of its first two, trimmed,
/// those with both a label and a url.
pub open spec fn usable_buttons(b: Option<Seq<ButtonView>>) -> Seq<ButtonView> {
    match b {
        Some(s) => button_candidates(s).filter(usable()),
        None => Seq::empty(),
    }
}

/// The activity of a preset with each text trimmed and left out where it is
/// empty, and with the usable buttons among its first two.
pub open spec fn tidy_activity(p: PresetView, start: Option<i64>) -> ActivityView {
    ActivityView {
        state: trimmed_text(p.state),
        details: trimmed_text(p.details),
        start_timestamp: start,
        assets: match p.assets {
            Some(a) => Some(trimmed_assets(a)),
            None => None,
        },
        buttons: usable_buttons(p.buttons),
    }
}

/// The activity of the system information presence: the given texts, the
/// given start, the preset's assets trimmed, and the given buttons.
pub open spec fn system_info_activity(
    details: Seq<char>,
    state: Seq<char>,
    start: i64,
    assets: Option<AssetsView>,
    buttons: Seq<ButtonView>,
) -> ActivityView {
    ActivityView {
        state: Some(state),
        details: Some(details),
        start_timestamp: Some(start),
        assets: match assets {
            Some(a) => Some(trimmed_assets(a)),
            None => None,
        },
        buttons,
    }
}

fn copy_text(t: &Option<String>) -> (res: Option<String>)
    ensures
        text_view(res) == text_view(*t),
{
    match t {
        Some(s) => Some(s.clone()),
        None => None,
    }
}

fn copy_button(b: &Button) -> (res: Button)
    ensures
        res@ == b@,
{
    Button { label: b.label.clone(), url: b.url.clone() }
}

fn copy_assets(a: &Option<Assets>) -> (res: Option<Assets>)
    ensures
        assets_view(res) == assets_view(*a),
{
    match a {
        Some(x) => Some(
            Assets {
                large_image: copy_text(&x.large_image),
                large_text: copy_text(&x.large_text),
                small_image: copy_text(&x.small_image),
                small_text: copy_text(&x.small_text),
            },
        ),
        None => None,
    }
}

/// A text trimmed; `None` where it is unset or nothing remains of it.
pub fn trimmed_text_of(t: &Option<String>) -> (res: Option<String>)
    ensures
        text_view(res) == trimmed_text(text_view(*t)),
{
    match t {
        Some(s) => {
            let r = trim(s.as_str());
            if r.is_empty() {
                None
            } else {
                Some(r.to_owned())
            }
        },
        None => None,
    }
}

/// Assets with each text trimmed and left out where nothing remains.
pub fn trimmed_assets_of(a: &Assets) -> (res: Assets)
    ensures
        res@ == trimmed_assets(a@),
{
    Assets {
        large_image: trimmed_text_of(&a.large_image),
        large_text: trimmed_text_of(&a.large_text),
        small_image: trimmed_text_of(&a.small_image),
        small_text: trimmed_text_of(&a.small_text),
    }
}

/// The buttons of a preset as written: its first two.
pub fn listed_buttons_of(buttons: &Option<Vec<Button>>) -> (res: Vec<Button>)
    ensures
        buttons_view(res@) == listed_buttons(
            match buttons {
                Some(v) => Some(buttons_view(v@)),
                None => None,
            },
        ),
{
    let mut out: Vec<Button> = Vec::new();
    match buttons {
        Some(v) => {
            let n: usize = if v.len() < MAX_BUTTONS {
                v.len()
            } else {
                MAX_BUTTONS
            };
            let ghost bv = buttons_view(v@);
            let mut i: usize = 0;
            while i < n
                invariant
                    i <= n,
                    n <= v.len(),
                    n == first_two(bv).len(),
                    bv == buttons_view(v@),
                    buttons_view(out@) == first_two(bv).take(i as int),
                decreases n - i,
            {
                let b = copy_button(&v[i]);
                let ghost before = out@;
                out.push(b);
                proof {
                    assert(first_two(bv)[i as int] == v@[i as int]@);
                    assert(buttons_view(out@) =~= buttons_view(before).push(v@[i as int]@));
                    assert(buttons_view(out@) =~= first_two(bv).take(i + 1));
                }
                i = i + 1;
            }
            proof {
                assert(first_two(bv).take(n as int) =~= first_two(bv));
            }
        },
        None => {
            assert(buttons_view(out@) =~= Seq::<ButtonView>::empty());
        },
    }
    out
}

/// The buttons that are shown of a preset's list: of its first two, each
/// trimmed, those that keep both a label and a url.
pub fn usable_buttons_of(buttons: &Option<Vec<Button>>) -> (res: Vec<Button>)
    ensures
        buttons_view(res@) == usable_buttons(
            match buttons {
                Some(v) => Some(buttons_view(v@)),
                None => None,
            },
        ),
{
    let mut out: Vec<Button> = Vec::new();
    match buttons {
        Some(v) => {
            let n: usize = if v.len() < MAX_BUTTONS {
                v.len()
            } else {
                MAX_BUTTONS
            };
            let ghost cand = button_candidates(buttons_view(v@));
            let mut i: usize = 0;
            while i < n
                invariant
                    i <= n,
                    n <= v.len(),
                    n == cand.len(),
                    cand == button_candidates(buttons_view(v@)),
                    buttons_view(out@) == cand.take(i as int).filter(usable()),
                decreases n - i,
            {
                let label = trim(v[i].label.as_str());
                let url = trim(v[i].url.as_str());
                proof {
                    assert(cand[i as int] == trimmed_button(v@[i as int]@));
                    assert(cand.take(i + 1) =~= cand.take(i as int).push(cand[i as int]));
                    cand.take(i as int).lemma_filter_push(cand[i as int], usable());
                }
                if !label.is_empty() && !url.is_empty() {
                    out.push(Button { label: label.to_owned(), url: url.to_owned() });
                    proof {
                        assert(buttons_view(out@) =~= cand.take(i + 1).filter(usable()));
                    }
                }
                i = i + 1;
            }
            proof {
                assert(cand.take(n as int) =~= cand);
            }
        },
        None => {
            assert(buttons_view(out@) =~= Seq::<ButtonView>::empty());
        },
    }
    out
}

/// The activity of a preset taken as written, with the given start of the
/// elapsed time.
pub fn plain_activity_of(preset: &Preset, start_timestamp: Option<i64>) -> (res: Activity)
    ensures
        res@ == plain_activity(preset@, start_timestamp),
{
    Activity {
        state: copy_text(&preset.state),
        details: copy_text(&preset.details),
        start_timestamp,
        assets: copy_assets(&preset.assets),
        buttons: listed_buttons_of(&preset.buttons),
    }
}

/// The activity of a preset with its texts trimmed, empty texts left out
/// and only usable buttons, with the given start of the elapsed time.
pub fn tidy_activity_of(preset: &Preset, start_timestamp: Option<i64>) -> (res: Activity)
    ensures
        res@ == tidy_activity(preset@, start_timestamp),
{
    let assets = match &preset.assets {
        Some(a) => Some(trimmed_assets_of(a)),
        None => None,
    };
    Activity {
        state: trimmed_text_of(&preset.state),
        details: trimmed_text_of(&preset.details),
        start_timestamp,
        assets,
        buttons: usable_buttons_of(&preset.buttons),
    }
}

/// The activity of the system information presence: the figures in
/// `details` and `state`, the start of the day in `start_timestamp`, the
/// preset's assets trimmed, and the buttons prepared from the preset.
pub fn system_info_activity_of(
    details: String,
    state: String,
    start_timestamp: i64,
    assets: &Option<Assets>,
    buttons: &Vec<Button>,
) -> (res: Activity)
    ensures
        res@ == system_info_activity(
            details@,
            state@,
            start_timestamp,
            assets_view(*assets),
            buttons_view(buttons@),
        ),
{
    let shown_assets = match assets {
        Some(a) => Some(trimmed_assets_of(a)),
        None => None,
    };
    let mut shown_buttons: Vec<Button> = Vec::new();
    let mut i: usize = 0;
    while i < buttons.len()
        invariant
            i <= buttons.len(),
            buttons_view(shown_buttons@) == buttons_view(buttons@).take(i as int),
        decreases buttons.len() - i,
    {
        let b = copy_button(&buttons[i]);
        let ghost before = shown_buttons@;
        shown_buttons.push(b);
        proof {
            assert(buttons_view(shown_buttons@) =~= buttons_view(before).push(buttons@[i as int]@));
            assert(buttons_view(shown_buttons@) =~= buttons_view(buttons@).take(i + 1));
        }
        i = i + 1;
    }
    proof {
        assert(buttons_view(buttons@).take(buttons.len() as int) =~= buttons_view(buttons@));
    }
    Activity {
        state: Some(state),
        details: Some(details),
        start_timestamp: Some(start_timestamp),
        assets: shown_assets,
        buttons: shown_buttons,
    }
}

/// A text that is not empty and has no white space around it.
pub open spec fn is_clean_text(t: Seq<char>) -> bool {
    t.len() > 0 && trimmed(t) == t
}

/// An optional text that, where it is set, is clean.
pub open spec fn is_clean_option(t: Option<Seq<char>>) -> bool {
    t matches Some(x) ==> is_clean_text(x)
}

/// Assets whose set texts are all clean.
pub open spec fn are_clean_assets(a: AssetsView) -> bool {
    &&& is_clean_option(a.large_image)
    &&& is_clean_option(a.large_text)
    &&& is_clean_option(a.small_image)
    &&& is_clean_option(a.small_text)
}

/// A button whose label and url are clean.
pub open spec fn is_clean_button(b: ButtonView) -> bool {
    is_clean_text(b.label) && is_clean_text(b.url)
}

/// A preset whose set texts are clean and whose first two buttons are clean.
pub open spec fn is_clean_preset(p: PresetView) -> bool {
    &&& is_clean_option(p.state)
    &&& is_clean_option(p.details)
    &&& (p.assets matches Some(a) ==> are_clean_assets(a))
    &&& forall|i: int|
        0 <= i < listed_buttons(p.buttons).len() ==> is_clean_button(
            #[trigger] listed_buttons(p.buttons)[i],
        )
}

proof fn lemma_trimmed_text_is_clean(t: Option<Seq<char>>)
    ensures
        is_clean_option(trimmed_text(t)),
{
    if let Some(x) = t {
        lemma_trim_idempotent(x);
    }
}

proof fn lemma_trimmed_assets_are_clean(a: AssetsView)
    ensures
        are_clean_assets(trimmed_assets(a)),
{
    lemma_trimmed_text_is_clean(a.large_image);
    lemma_trimmed_text_is_clean(a.large_text);
    lemma_trimmed_text_is_clean(a.small_image);
    lemma_trimmed_text_is_clean(a.small_text);
}

proof fn lemma_filter_keeps_all<A>(s: Seq<A>, pred: spec_fn(A) -> bool)
    requires
        forall|i: int| 0 <= i < s.len() ==> pred(#[trigger] s[i]),
    ensures
        s.filter(pred) == s,
    decreases s.len(),
{
    if s.len() > 0 {
        let t = s.drop_last();
        assert forall|i: int| 0 <= i < t.len() implies pred(#[trigger] t[i]) by {
            assert(t[i] == s[i]);
        }
        lemma_filter_keeps_all(t, pred);
        t.lemma_filter_push(s.last(), pred);
        assert(t.push(s.last()) =~= s);
    }
}

/// An activity built with trimming holds only clean texts, at most two
/// buttons, each with a clean label and url, and the given start.
pub proof fn lemma_tidy_activity_is_clean(p: PresetView, start: Option<i64>)
    ensures
        ({
            let a = tidy_activity(p, start);
            &&& is_clean_option(a.state)
            &&& is_clean_option(a.details)
            &&& (a.assets matches Some(x) ==> are_clean_assets(x))
            &&& a.buttons.len() <= MAX_BUTTONS
            &&& forall|i: int| 0 <= i < a.buttons.len() ==> is_clean_button(#[trigger] a.buttons[i])
            &&& a.start_timestamp == start
        }),
{
    lemma_trimmed_text_is_clean(p.state);
    lemma_trimmed_text_is_clean(p.details);
    if let Some(x) = p.assets {
        lemma_trimmed_assets_are_clean(x);
    }
    if let Some(bs) = p.buttons {
        let cand = button_candidates(bs);
        let kept = cand.filter(usable());
        cand.lemma_filter_len(usable());
        assert forall|i: int| 0 <= i < kept.len() implies is_clean_button(#[trigger] kept[i]) by {
            cand.lemma_filter_pred(usable(), i);
            assert(kept.contains(kept[i]));
            cand.lemma_filter_contains_rev(usable(), kept[i]);
            let j = choose|j: int| 0 <= j < cand.len() && cand[j] == kept[i];
            lemma_trim_idempotent(first_two(bs)[j].label);
            lemma_trim_idempotent(first_two(bs)[j].url);
        }
    }
}

/// An activity built as written has at most two buttons: the first ones of
/// the preset, in order.
pub proof fn lemma_plain_activity_buttons(p: PresetView, start: Option<i64>)
    ensures
        ({
            let a = plain_activity(p, start);
            &&& a.buttons.len() <= MAX_BUTTONS
            &&& p.buttons matches Some(bs) ==> a.buttons == bs.take(a.buttons.len() as int)
            &&& p.buttons matches Some(bs) ==> a.buttons.len() == if bs.len() < 2 {
                bs.len()
            } else {
                2
            }
            &&& p.buttons is None ==> a.buttons.len() == 0
            &&& a.state == p.state
            &&& a.details == p.details
            &&& a.assets == p.assets
            &&& a.start_timestamp == start
        }),
{
    if let Some(bs) = p.buttons {
        if bs.len() <= MAX_BUTTONS {
            assert(bs.take(bs.len() as int) =~= bs);
        }
    }
}

/// On a preset whose texts and first two buttons are already clean, the
/// activity built with trimming is the activity built as written.
pub proof fn lemma_clean_preset_same_activity(p: PresetView, start: Option<i64>)
    requires
        is_clean_preset(p),
    ensures
        tidy_activity(p, start) == plain_activity(p, start),
{
    if let Some(a) = p.assets {
        assert(trimmed_assets(a) == a);
    }
    if let Some(bs) = p.buttons {
        let two = first_two(bs);
        let cand = button_candidates(bs);
        assert forall|i: int| 0 <= i < cand.len() implies #[trigger] cand[i] == two[i] by {
            assert(is_clean_button(listed_buttons(p.buttons)[i]));
        }
        assert(cand =~= two);
        assert forall|i: int| 0 <= i < two.len() implies usable()(#[trigger] two[i]) by {
            assert(is_clean_button(listed_buttons(p.buttons)[i]));
        }
        lemma_filter_keeps_all(two, usable());
    }
    assert(tidy_activity(p, start) =~= plain_activity(p, start));
}

/// `shown` is what is shown of a `given` text: its trimmed form where that
/// is not empty, and nothing where it is empty or the text is unset.
pub open spec fn shows_trimmed(given: Option<Seq<char>>, shown: Option<Seq<char>>) -> bool {
    match given {
        Some(s) => if trimmed(s).len() > 0 {
            shown == Some(trimmed(s))
        } else {
            shown is None
        },
        None => shown is None,
    }
}

/// `shown` is what is shown of `given` assets: each text trimmed and left
/// out where nothing remains of it.
pub open spec fn shows_trimmed_assets(given: AssetsView, shown: AssetsView) -> bool {
    &&& shows_trimmed(given.large_image, shown.large_image)
    &&& shows_trimmed(given.large_text, shown.large_text)
    &&& shows_trimmed(given.small_image, shown.small_image)
    &&& shows_trimmed(given.small_text, shown.small_text)
}

proof fn lemma_trimmed_text_shows_trimmed(t: Option<Seq<char>>)
    ensures
        shows_trimmed(t, trimmed_text(t)),
{
}

proof fn lemma_trimmed_assets_show_trimmed(a: AssetsView)
    ensures
        shows_trimmed_assets(a, trimmed_assets(a)),
{
}

/// The buttons shown of a preset's list are, in order, the first and the
/// second button, each trimmed, each kept exactly when both its trimmed
/// label and its trimmed url are not empty; a preset without buttons shows
/// none. A button that cannot be shown does not hide the other.
pub proof fn lemma_usable_buttons_keep_each_complete_one(s: Seq<ButtonView>)
    ensures
        usable_buttons(None) == Seq::<ButtonView>::empty(),
        usable_buttons(Some(s)) == (if s.len() >= 1 && trimmed(s[0].label).len() > 0 && trimmed(
            s[0].url,
        ).len() > 0 {
            seq![ButtonView { label: trimmed(s[0].label), url: trimmed(s[0].url) }]
        } else {
            Seq::<ButtonView>::empty()
        }) + (if s.len() >= 2 && trimmed(s[1].label).len() > 0 && trimmed(s[1].url).len() > 0 {
            seq![ButtonView { label: trimmed(s[1].label), url: trimmed(s[1].url) }]
        } else {
            Seq::<ButtonView>::empty()
        }),
{
    let cand = button_candidates(s);
    let e = Seq::<ButtonView>::empty();
    reveal_with_fuel(Seq::filter, 1);
    assert(e.filter(usable()) =~= e);
    let first = if s.len() >= 1 && is_usable(trimmed_button(s[0])) {
        seq![trimmed_button(s[0])]
    } else {
        e
    };
    if s.len() >= 1 {
        e.lemma_filter_push(trimmed_button(s[0]), usable());
        assert(e.push(trimmed_button(s[0])) =~= seq![trimmed_button(s[0])]);
        assert(seq![trimmed_button(s[0])].filter(usable()) =~= first);
    }
    if s.len() == 0 {
        assert(cand =~= e);
    } else if s.len() == 1 {
        assert(cand =~= seq![trimmed_button(s[0])]);
        assert(first + e =~= first);
    } else {
        assert(cand =~= seq![trimmed_button(s[0])].push(trimmed_button(s[1])));
        seq![trimmed_button(s[0])].lemma_filter_push(trimmed_button(s[1]), usable());
        if is_usable(trimmed_button(s[1])) {
            assert(first.push(trimmed_button(s[1])) =~= first + seq![trimmed_button(s[1])]);
        } else {
            assert(first + e =~= first);
        }
    }
}

/// The activity for the dynamic presence shows each text of the preset
/// trimmed, and leaves out the ones of which nothing remains; it has assets
/// exactly where the preset has them, each text of them treated alike; it
/// shows the buttons chosen from the preset's list and the given start.
pub proof fn lemma_tidy_activity_trims_each_text(p: PresetView, start: Option<i64>)
    ensures
        ({
            let a = tidy_activity(p, start);
            &&& shows_trimmed(p.state, a.state)
            &&& shows_trimmed(p.details, a.details)
            &&& (p.assets is None <==> a.assets is None)
            &&& (p.assets matches Some(x) ==> a.assets matches Some(y) && shows_trimmed_assets(
                x,
                y,
            ))
            &&& a.buttons == usable_buttons(p.buttons)
            &&& a.start_timestamp == start
        }),
{
    lemma_trimmed_text_shows_trimmed(p.state);
    lemma_trimmed_text_shows_trimmed(p.details);
    if let Some(x) = p.assets {
        lemma_trimmed_assets_show_trimmed(x);
    }
}

/// The system information activity shows the given figures as they are,
/// the given start, and exactly the given buttons; it has assets exactly
/// where the preset has them, each text trimmed and left out where nothing
/// remains of it.
pub proof fn lemma_system_info_activity_shows_what_it_is_given(
    details: Seq<char>,
    state: Seq<char>,
    start: i64,
    assets: Option<AssetsView>,
    buttons: Seq<ButtonView>,
)
    ensures
        ({
            let a = system_info_activity(details, state, start, assets, buttons);
            &&& a.details == Some(details)
            &&& a.state == Some(state)
            &&& a.start_timestamp == Some(start)
            &&& a.buttons == buttons
            &&& a.buttons.len() == buttons.len()
            &&& (assets is None <==> a.assets is None)
            &&& (assets matches Some(x) ==> a.assets matches Some(y) && shows_trimmed_assets(x, y))
        }),
{
    if let Some(x) = assets {
        lemma_trimmed_assets_show_trimmed(x);
    }
}

} // verus!
