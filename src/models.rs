//! Model listings: each vendor's list filtered, named and ordered its own way,
//! in one normalized shape.

use vstd::prelude::*;
use crate::error::AppError;
use crate::provider::{provider_named, Provider};
use crate::records::{AnthropicModel, GeminiModel, Model, NormalizedModel, OpenRouterModel};
use crate::text::{
    chars_of, contains, contains_text, ends_with, ends_with_text, same_text, starts_with,
    starts_with_text, string_of_range,
};

verus! {

/// Lower-case form of `s` as `str::to_lowercase` gives it.
pub uninterp spec fn lower_of(s: Seq<char>) -> Seq<char>;

/// Relies on `str::to_lowercase`: the result depends on the characters alone.
#[verifier::external_body]
pub(crate) fn lowercase(s: &str) -> (r: String)
    ensures
        r@ == lower_of(s@),
{
    s.to_lowercase()
}

/// Seconds since the epoch of a date-time text, as chrono reads it.
pub uninterp spec fn timestamp_of(s: Seq<char>) -> Option<i64>;

/// Relies on chrono's `FromStr for DateTime<Utc>` (relaxed RFC 3339) and
/// `DateTime::timestamp`: the result depends on the text alone.
#[verifier::external_body]
fn parse_timestamp(s: &str) -> (r: Option<i64>)
    ensures
        r == timestamp_of(s@),
{
    match s.parse::<chrono::DateTime<chrono::Utc>>() {
        Ok(dt) => Some(dt.timestamp()),
        Err(_) => None,
    }
}

/// `str::replace`: every non-overlapping occurrence of `from`, left to right,
/// replaced by `to`.
pub open spec fn replace_all(s: Seq<char>, from: Seq<char>, to: Seq<char>) -> Seq<char>
    decreases s.len(),
{
    if s.len() == 0 || from.len() == 0 {
        s
    } else if starts_with(s, from) {
        to + replace_all(s.skip(from.len() as int), from, to)
    } else {
        seq![s[0]] + replace_all(s.drop_first(), from, to)
    }
}

fn replace_text(s: &str, from: &str, to: &str) -> (r: String)
    requires
        from@.len() > 0,
    ensures
        r@ == replace_all(s@, from@, to@),
{
    let v = chars_of(s);
    let f = chars_of(from);
    let mut r = String::new();
    let mut i: usize = 0;
    assert(v@.skip(0) =~= v@);
    assert(r@ + replace_all(v@, f@, to@) =~= replace_all(v@, f@, to@));
    while i < v.len()
        invariant
            i <= v.len(),
            f@ == from@,
            f@.len() > 0,
            v@ == s@,
            r@ + replace_all(v@.skip(i as int), f@, to@) == replace_all(v@, f@, to@),
        decreases v.len() - i,
    {
        let ghost rest = v@.skip(i as int);
        if crate::text::occurs_at_exec(&v, &f, i) {
            assert(rest.take(f@.len() as int) =~= v@.subrange(i as int, i + f@.len()));
            assert(rest.skip(f@.len() as int) =~= v@.skip(i + f@.len()));
            r.append(to);
            i = i + f.len();
        } else {
            proof {
                if rest.len() >= f@.len() {
                    assert(rest.take(f@.len() as int) =~= v@.subrange(i as int, i + f@.len()));
                }
            }
            assert(rest.drop_first() =~= v@.skip(i + 1));
            crate::text::push_char(&mut r, v[i]);
            i = i + 1;
        }
    }
    assert(v@.skip(v.len() as int) =~= Seq::<char>::empty());
    r
}

/// Model ids an OpenAI listing leaves out: audio, image, embedding,
/// moderation, fine-tuned and other non-chat models.
pub open spec fn openai_excluded(id: Seq<char>) -> bool {
    let l = lower_of(id);
    contains(l, "audio"@) || contains(l, "whisper"@) || contains(l, "tts"@) || contains(
        l,
        "speech"@,
    ) || contains(l, "image"@) || contains(l, "dall-e"@) || contains(l, "vision"@) || contains(
        l,
        "embedding"@,
    ) || contains(l, "ada"@) || contains(l, "moderation"@) || contains(l, "edit"@) || contains(
        l,
        "search"@,
    ) || contains(l, "similarity"@) || ends_with(l, "-001"@) || contains(l, "babbage"@)
        || contains(l, "curie"@) || (contains(l, "davinci"@) && !starts_with(l, "text-davinci"@)
        && l != "davinci-002"@) || contains(l, "canary"@) || contains(l, "playground"@)
        || contains(l, "ft:"@) || contains(l, "realtime"@)
}

pub fn is_openai_excluded(id: &str) -> (r: bool)
    ensures
        r == openai_excluded(id@),
{
    let l = lowercase(id);
    let s = l.as_str();
    contains_text(s, "audio") || contains_text(s, "whisper") || contains_text(s, "tts")
        || contains_text(s, "speech") || contains_text(s, "image") || contains_text(s, "dall-e")
        || contains_text(s, "vision") || contains_text(s, "embedding") || contains_text(s, "ada")
        || contains_text(s, "moderation") || contains_text(s, "edit") || contains_text(
        s,
        "search",
    ) || contains_text(s, "similarity") || ends_with_text(s, "-001") || contains_text(
        s,
        "babbage",
    ) || contains_text(s, "curie") || (contains_text(s, "davinci") && !starts_with_text(
        s,
        "text-davinci",
    ) && !same_text(s, "davinci-002")) || contains_text(s, "canary") || contains_text(
        s,
        "playground",
    ) || contains_text(s, "ft:") || contains_text(s, "realtime")
}

/// A listed model in plain values: id, name, provider, description,
/// context length, creation time.
pub type Entry = (Seq<char>, Seq<char>, Seq<char>, Option<Seq<char>>, Option<i32>, i64);

pub open spec fn entry_of(n: NormalizedModel) -> Entry {
    (n.id@, n.name@, n.provider@, crate::conversation::option_view(&n.description), n.context_length, n.created)
}

pub open spec fn entries(s: Seq<NormalizedModel>) -> Seq<Entry> {
    s.map_values(|n: NormalizedModel| entry_of(n))
}

/// Index at which an entry created at `c` goes into `s` (ordered newest
/// first): after every entry at least as new, so that equal times keep
/// their order.
pub open spec fn slot(s: Seq<Entry>, c: i64, j: int) -> int
    decreases s.len() - j,
{
    if 0 <= j < s.len() && s[j].5 >= c {
        slot(s, c, j + 1)
    } else {
        j
    }
}

/// A stable ordering of `s`, newest first.
pub open spec fn newest_first(s: Seq<Entry>) -> Seq<Entry>
    decreases s.len(),
{
    if s.len() == 0 {
        seq![]
    } else {
        let r = newest_first(s.drop_last());
        r.insert(slot(r, s.last().5, 0), s.last())
    }
}

pub open spec fn opt_view(o: &Option<String>) -> Option<Seq<char>> {
    crate::conversation::option_view(o)
}

fn copy_text(o: &Option<String>) -> (r: Option<String>)
    ensures
        opt_view(&r) == opt_view(o),
{
    match o {
        Some(s) => Some(s.clone()),
        None => None,
    }
}

fn copy_model(m: &NormalizedModel) -> (r: NormalizedModel)
    ensures
        entry_of(r) == entry_of(*m),
{
    NormalizedModel {
        id: m.id.clone(),
        name: m.name.clone(),
        provider: m.provider.clone(),
        description: copy_text(&m.description),
        context_length: m.context_length,
        created: m.created,
    }
}

/// Orders models newest first, keeping the listing order among equal times.
pub fn sort_newest_first(s: &Vec<NormalizedModel>) -> (r: Vec<NormalizedModel>)
    ensures
        entries(r@) == newest_first(entries(s@)),
{
    let mut r: Vec<NormalizedModel> = Vec::new();
    let mut i: usize = 0;
    while i < s.len()
        invariant
            i <= s.len(),
            entries(r@) == newest_first(entries(s@).take(i as int)),
        decreases s.len() - i,
    {
        let x = copy_model(&s[i]);
        let ghost e = entries(r@);
        let mut j: usize = 0;
        while j < r.len() && r[j].created >= x.created
            invariant
                j <= r.len(),
                e == entries(r@),
                slot(e, x.created, 0) == slot(e, x.created, j as int),
            decreases r.len() - j,
        {
            j = j + 1;
        }
        let ghost prev = r@;
        r.insert(j, x);
        proof {
            assert(entries(r@) =~= entries(prev).insert(j as int, entry_of(x)));
            let t = entries(s@).take(i + 1);
            assert(t.drop_last() =~= entries(s@).take(i as int));
            assert(t.last() == entry_of(s@[i as int]));
        }
        i = i + 1;
    }
    assert(entries(s@).take(s.len() as int) =~= entries(s@));
    r
}

/// An OpenAI listing entry as presented.
pub open spec fn openai_entry(m: Model) -> Entry {
    (m.id@, m.id@, "openai"@, None, None, m.created)
}

/// The chat models of an OpenAI listing, in listing order.
pub open spec fn openai_kept(data: Seq<Model>) -> Seq<Entry>
    decreases data.len(),
{
    if data.len() == 0 {
        seq![]
    } else if openai_excluded(data.last().id@) {
        openai_kept(data.drop_last())
    } else {
        openai_kept(data.drop_last()).push(openai_entry(data.last()))
    }
}

/// OpenAI's chat models, newest first.
pub fn openai_models(data: &Vec<Model>) -> (r: Vec<NormalizedModel>)
    ensures
        entries(r@) == newest_first(openai_kept(data@)),
{
    let mut kept: Vec<NormalizedModel> = Vec::new();
    let mut i: usize = 0;
    while i < data.len()
        invariant
            i <= data.len(),
            entries(kept@) == openai_kept(data@.take(i as int)),
        decreases data.len() - i,
    {
        let m = &data[i];
        proof {
            assert(data@.take(i + 1).drop_last() =~= data@.take(i as int));
        }
        if !is_openai_excluded(m.id.as_str()) {
            let n = NormalizedModel {
                id: m.id.clone(),
                name: m.id.clone(),
                provider: String::from_str("openai"),
                description: None,
                context_length: None,
                created: m.created,
            };
            let ghost prev = kept@;
            kept.push(n);
            assert(entries(kept@) =~= entries(prev).push(entry_of(n)));
        }
        i = i + 1;
    }
    assert(data@.take(data.len() as int) =~= data@);
    sort_newest_first(&kept)
}

/// Anthropic's listing entry: the display name when there is one, the
/// creation time read from its date-time text (0 when absent or unreadable).
pub open spec fn anthropic_entry(m: AnthropicModel) -> Entry {
    (
        m.id@,
        match m.display_name {
            Some(n) => n@,
            None => m.id@,
        },
        "anthropic"@,
        None,
        Some(200000i32),
        match m.created_at {
            Some(t) => match timestamp_of(t@) {
                Some(x) => x,
                None => 0i64,
            },
            None => 0i64,
        },
    )
}

/// Anthropic's models, in listing order.
pub fn anthropic_models(data: &Vec<AnthropicModel>) -> (r: Vec<NormalizedModel>)
    ensures
        entries(r@) == data@.map_values(|m: AnthropicModel| anthropic_entry(m)),
{
    let mut r: Vec<NormalizedModel> = Vec::new();
    let mut i: usize = 0;
    while i < data.len()
        invariant
            i <= data.len(),
            entries(r@) == data@.take(i as int).map_values(|m: AnthropicModel| anthropic_entry(m)),
        decreases data.len() - i,
    {
        let m = &data[i];
        let name = match &m.display_name {
            Some(n) => n.clone(),
            None => m.id.clone(),
        };
        let created: i64 = match &m.created_at {
            Some(t) => match parse_timestamp(t.as_str()) {
                Some(x) => x,
                None => 0,
            },
            None => 0,
        };
        let n = NormalizedModel {
            id: m.id.clone(),
            name,
            provider: String::from_str("anthropic"),
            description: None,
            context_length: Some(200000),
            created,
        };
        let ghost prev = r@;
        r.push(n);
        proof {
            assert(entries(r@) =~= entries(prev).push(entry_of(n)));
            assert(data@.take(i + 1).map_values(|m: AnthropicModel| anthropic_entry(m)) =~= data@.take(
                i as int,
            ).map_values(|m: AnthropicModel| anthropic_entry(m)).push(anthropic_entry(*m)));
        }
        i = i + 1;
    }
    assert(data@.take(data.len() as int) =~= data@);
    r
}

/// A display name: `prefix`, then `id` without `strip` and with dashes as spaces.
pub open spec fn display_name(prefix: Seq<char>, id: Seq<char>, strip: Seq<char>) -> Seq<char> {
    prefix + replace_all(replace_all(id, strip, ""@), "-"@, " "@)
}

fn display_name_exec(prefix: &str, id: &str, strip: &str) -> (r: String)
    requires
        strip@.len() > 0,
    ensures
        r@ == display_name(prefix@, id@, strip@),
{
    let a = replace_text(id, strip, "");
    proof {
        reveal_strlit("-");
    }
    let b = replace_text(a.as_str(), "-", " ");
    let mut r = String::from_str(prefix);
    r.append(b.as_str());
    r
}

/// xAI's listing entry.
pub open spec fn xai_entry(m: Model) -> Entry {
    (m.id@, display_name("Grok "@, m.id@, "grok-"@), "xai"@, None, Some(131072i32), m.created)
}

/// xAI's models, in listing order.
pub fn xai_models(data: &Vec<Model>) -> (r: Vec<NormalizedModel>)
    ensures
        entries(r@) == data@.map_values(|m: Model| xai_entry(m)),
{
    let mut r: Vec<NormalizedModel> = Vec::new();
    let mut i: usize = 0;
    proof {
        reveal_strlit("grok-");
    }
    while i < data.len()
        invariant
            i <= data.len(),
            "grok-"@.len() > 0,
            entries(r@) == data@.take(i as int).map_values(|m: Model| xai_entry(m)),
        decreases data.len() - i,
    {
        let m = &data[i];
        let n = NormalizedModel {
            id: m.id.clone(),
            name: display_name_exec("Grok ", m.id.as_str(), "grok-"),
            provider: String::from_str("xai"),
            description: None,
            context_length: Some(131072),
            created: m.created,
        };
        let ghost prev = r@;
        r.push(n);
        proof {
            assert(entries(r@) =~= entries(prev).push(entry_of(n)));
            assert(data@.take(i + 1).map_values(|m: Model| xai_entry(m)) =~= data@.take(
                i as int,
            ).map_values(|m: Model| xai_entry(m)).push(xai_entry(*m)));
        }
        i = i + 1;
    }
    assert(data@.take(data.len() as int) =~= data@);
    r
}

/// The text after the last `/` (all of it when there is none).
pub open spec fn last_segment(s: Seq<char>) -> Seq<char>
    decreases s.len(),
{
    if s.len() == 0 {
        s
    } else if s.last() == '/' {
        seq![]
    } else {
        last_segment(s.drop_last()).push(s.last())
    }
}

fn last_segment_exec(s: &str) -> (r: String)
    ensures
        r@ == last_segment(s@),
{
    let v = chars_of(s);
    let mut k: usize = v.len();
    assert(v@.take(v.len() as int) =~= v@);
    assert(v@.skip(v.len() as int) =~= Seq::<char>::empty());
    assert(last_segment(v@) + Seq::<char>::empty() =~= last_segment(v@));
    while k > 0 && v[k - 1] != '/'
        invariant
            k <= v.len(),
            last_segment(v@) == last_segment(v@.take(k as int)) + v@.skip(k as int),
        decreases k,
    {
        proof {
            let t = v@.take(k as int);
            assert(t.drop_last() =~= v@.take(k - 1));
            assert(v@.skip(k - 1) =~= seq![t.last()] + v@.skip(k as int));
            assert(last_segment(t.drop_last()).push(t.last()) + v@.skip(k as int) =~= last_segment(
                t.drop_last(),
            ) + v@.skip(k - 1));
        }
        k = k - 1;
    }
    proof {
        if k == 0 {
            assert(v@.take(0) =~= Seq::<char>::empty());
        } else {
            assert(v@.take(k as int).last() == '/');
        }
        assert(last_segment(v@.take(k as int)) =~= Seq::<char>::empty());
        assert(last_segment(v@) =~= v@.subrange(k as int, v.len() as int));
    }
    string_of_range(&v, k, v.len())
}

/// Whether a Gemini listing entry is a chat model.
pub open spec fn gemini_kept(name: Seq<char>) -> bool {
    contains(name, "gemini"@) && !contains(name, "embedding"@) && !contains(name, "vision"@)
}

pub open spec fn gemini_entry(m: GeminiModel) -> Entry {
    (
        last_segment(m.name@),
        display_name("Gemini "@, last_segment(m.name@), "gemini-"@),
        "gemini"@,
        crate::conversation::option_view(&m.description),
        Some(32768i32),
        0i64,
    )
}

/// Gemini's chat models, in listing order.
pub open spec fn gemini_listing(data: Seq<GeminiModel>) -> Seq<Entry>
    decreases data.len(),
{
    if data.len() == 0 {
        seq![]
    } else if gemini_kept(data.last().name@) {
        gemini_listing(data.drop_last()).push(gemini_entry(data.last()))
    } else {
        gemini_listing(data.drop_last())
    }
}

pub fn gemini_models(data: &Vec<GeminiModel>) -> (r: Vec<NormalizedModel>)
    ensures
        entries(r@) == gemini_listing(data@),
{
    let mut r: Vec<NormalizedModel> = Vec::new();
    let mut i: usize = 0;
    proof {
        reveal_strlit("gemini-");
    }
    while i < data.len()
        invariant
            i <= data.len(),
            "gemini-"@.len() > 0,
            entries(r@) == gemini_listing(data@.take(i as int)),
        decreases data.len() - i,
    {
        let m = &data[i];
        proof {
            assert(data@.take(i + 1).drop_last() =~= data@.take(i as int));
        }
        if contains_text(m.name.as_str(), "gemini") && !contains_text(m.name.as_str(), "embedding")
            && !contains_text(m.name.as_str(), "vision") {
            let id = last_segment_exec(m.name.as_str());
            let n = NormalizedModel {
                name: display_name_exec("Gemini ", id.as_str(), "gemini-"),
                id,
                provider: String::from_str("gemini"),
                description: copy_text(&m.description),
                context_length: Some(32768),
                created: 0,
            };
            let ghost prev = r@;
            r.push(n);
            assert(entries(r@) =~= entries(prev).push(entry_of(n)));
        }
        i = i + 1;
    }
    assert(data@.take(data.len() as int) =~= data@);
    r
}

pub open spec fn openrouter_entry(m: OpenRouterModel) -> Entry {
    (m.id@, m.name@, "openrouter"@, Some(m.description@), Some(m.context_length), m.created)
}

/// OpenRouter's models, in listing order.
pub fn openrouter_models(data: &Vec<OpenRouterModel>) -> (r: Vec<NormalizedModel>)
    ensures
        entries(r@) == data@.map_values(|m: OpenRouterModel| openrouter_entry(m)),
{
    let mut r: Vec<NormalizedModel> = Vec::new();
    let mut i: usize = 0;
    while i < data.len()
        invariant
            i <= data.len(),
            entries(r@) == data@.take(i as int).map_values(|m: OpenRouterModel| openrouter_entry(m)),
        decreases data.len() - i,
    {
        let m = &data[i];
        let n = NormalizedModel {
            id: m.id.clone(),
            name: m.name.clone(),
            provider: String::from_str("openrouter"),
            description: Some(m.description.clone()),
            context_length: Some(m.context_length),
            created: m.created,
        };
        let ghost prev = r@;
        r.push(n);
        proof {
            assert(entries(r@) =~= entries(prev).push(entry_of(n)));
            assert(data@.take(i + 1).map_values(|m: OpenRouterModel| openrouter_entry(m)) =~= data@.take(
                i as int,
            ).map_values(|m: OpenRouterModel| openrouter_entry(m)).push(openrouter_entry(*m)));
        }
        i = i + 1;
    }
    assert(data@.take(data.len() as int) =~= data@);
    r
}

/// The vendor whose models are listed; an unknown name is a bad request.
pub fn listing_provider(name: &str) -> (r: Result<Provider, AppError>)
    ensures
        match provider_named(name@) {
            Some(p) => r == Ok::<Provider, AppError>(p),
            None => (r is Err && r->Err_0 is BadRequest && r->Err_0->BadRequest_0@
                == "provider '"@ + name@ + "' is not supported for model fetching."@),
        },
{
    match Provider::from_name(name) {
        Ok(p) => Ok(p),
        Err(_) => {
            let mut m = String::from_str("provider '");
            m.append(name);
            m.append("' is not supported for model fetching.");
            Err(AppError::BadRequest(m))
        },
    }
}

} // verus!
