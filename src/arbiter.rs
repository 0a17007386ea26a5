//! The decision procedure for one request: serve a stand-in during a
//! cooldown, or resolve the prompts and let a call to the generator through, and
//! tag what the generator returns.

use vstd::prelude::*;
use crate::clock::{now_millis, random_below};
use crate::languages::{get_translation_prompt, translation_prompt};
use crate::models::{Millis, Saying, SayingSource, same_text, opt_text};
use crate::preset::{
    Preset, PresetError, Presets, default_preset_id, position_of_id, same_preset, selection_outcome,
};
use crate::rate_limiter::{RateLimiter, check_step, window_end};

verus! {

/// The user id that is reserved for local testing.
pub const TEST_USER_ID: &'static str = "test-user";

/// Errors surfaced to the transport layer.
#[derive(Debug)]
pub enum ApiError {
    AccessDenied(String),
    RateLimited(String),
    NotFound(String),
    BadRequest(String),
    InternalError(String),
    OpenRouterError(String),
}

impl ApiError {
    /// The HTTP status that stands for this error.
    pub fn status_code(&self) -> (r: u16)
        ensures
            r == match *self {
                ApiError::AccessDenied(_) => 403u16,
                ApiError::RateLimited(_) => 429u16,
                ApiError::NotFound(_) => 404u16,
                ApiError::BadRequest(_) => 400u16,
                ApiError::InternalError(_) => 500u16,
                ApiError::OpenRouterError(_) => 500u16,
            },
    {
        match self {
            ApiError::AccessDenied(_) => 403,
            ApiError::RateLimited(_) => 429,
            ApiError::NotFound(_) => 404,
            ApiError::BadRequest(_) => 400,
            ApiError::InternalError(_) => 500,
            ApiError::OpenRouterError(_) => 500,
        }
    }

    /// The detail message this error carries.
    pub fn message(&self) -> (r: String)
        ensures
            r@ == match *self {
                ApiError::AccessDenied(m) => m@,
                ApiError::RateLimited(m) => m@,
                ApiError::NotFound(m) => m@,
                ApiError::BadRequest(m) => m@,
                ApiError::InternalError(m) => m@,
                ApiError::OpenRouterError(m) => m@,
            },
    {
        match self {
            ApiError::AccessDenied(m) => m.clone(),
            ApiError::RateLimited(m) => m.clone(),
            ApiError::NotFound(m) => m.clone(),
            ApiError::BadRequest(m) => m.clone(),
            ApiError::InternalError(m) => m.clone(),
            ApiError::OpenRouterError(m) => m.clone(),
        }
    }

    /// The full description: a prefix naming the kind, then the message.
    pub fn to_string(&self) -> (r: String)
        ensures
            r@ == match *self {
                ApiError::AccessDenied(m) => "Access denied: "@ + m@,
                ApiError::RateLimited(m) => "Rate limit exceeded: "@ + m@,
                ApiError::NotFound(m) => "Not found: "@ + m@,
                ApiError::BadRequest(m) => "Bad request: "@ + m@,
                ApiError::InternalError(m) => "Internal server error: "@ + m@,
                ApiError::OpenRouterError(m) => "OpenRouter API error: "@ + m@,
            },
    {
        match self {
            ApiError::AccessDenied(m) => String::from_str("Access denied: ").concat(m.as_str()),
            ApiError::RateLimited(m) => String::from_str("Rate limit exceeded: ").concat(m.as_str()),
            ApiError::NotFound(m) => String::from_str("Not found: ").concat(m.as_str()),
            ApiError::BadRequest(m) => String::from_str("Bad request: ").concat(m.as_str()),
            ApiError::InternalError(m) => String::from_str("Internal server error: ").concat(
                m.as_str(),
            ),
            ApiError::OpenRouterError(m) => String::from_str("OpenRouter API error: ").concat(
                m.as_str(),
            ),
        }
    }
}

/// The body of a request for a new saying.
#[derive(Debug)]
pub struct SayingRequest {
    pub prompt: Option<String>,
    pub preset_id: Option<String>,
    pub language_id: Option<String>,
}

/// Query parameters naming a user and a language.
#[derive(Debug)]
pub struct StatusQuery {
    pub user_id: Option<String>,
    pub language_id: Option<String>,
}

/// Query parameters for listing a user's sayings.
#[derive(Debug)]
pub struct SayingsQuery {
    pub user_id: Option<String>,
    pub limit: Option<usize>,
}

/// The public face of a preset, without its prompts.
#[derive(Debug)]
pub struct PresetResponse {
    pub id: String,
    pub name: String,
    pub description: String,
    pub tags: Vec<String>,
    pub button_text: String,
    pub loading_text: String,
    pub instruction_text: String,
}

impl PresetResponse {
    /// The public fields of `preset`.
    pub fn from_preset(preset: Preset) -> (r: PresetResponse)
        ensures
            r.id == preset.id,
            r.name == preset.name,
            r.description == preset.description,
            r.tags == preset.tags,
            r.button_text == preset.button_text,
            r.loading_text == preset.loading_text,
            r.instruction_text == preset.instruction_text,
    {
        PresetResponse {
            id: preset.id,
            name: preset.name,
            description: preset.description,
            tags: preset.tags,
            button_text: preset.button_text,
            loading_text: preset.loading_text,
            instruction_text: preset.instruction_text,
        }
    }
}

/// Whether `user_id` may use the service: the test user is refused in
/// release builds and admitted otherwise, like every other user.
pub open spec fn user_allowed(user_id: Seq<char>, release_build: bool) -> bool {
    !(release_build && user_id == TEST_USER_ID@)
}

/// Refuses the test user in release builds; admits everyone else.
pub fn is_user_allowed(user_id: &str, release_build: bool) -> (r: Result<(), ApiError>)
    ensures
        user_allowed(user_id@, release_build) ==> r is Ok,
        !user_allowed(user_id@, release_build) ==> r matches Err(ApiError::AccessDenied(_)),
{
    if release_build && same_text(user_id, TEST_USER_ID) {
        return Err(
            ApiError::AccessDenied(String::from_str("This user ID is not allowed in production")),
        );
    }
    Ok(())
}

/// The user a request speaks for: the given one, or `default_user`.
pub fn requested_user(user_id: Option<String>) -> (r: String)
    ensures
        r@ == match user_id {
            Some(u) => u@,
            None => "default_user"@,
        },
{
    match user_id {
        Some(u) => u,
        None => String::from_str("default_user"),
    }
}

/// The language of a request: from the query, else from the body, else English.
pub fn requested_language(query: Option<String>, body: Option<String>) -> (r: String)
    ensures
        r@ == match (query, body) {
            (Some(q), _) => q@,
            (None, Some(b)) => b@,
            (None, None) => "en"@,
        },
{
    match query {
        Some(q) => q,
        None => match body {
            Some(b) => b,
            None => String::from_str("en"),
        },
    }
}

/// The number of sayings to list: the given limit, else ten.
pub fn requested_limit(limit: Option<usize>) -> (r: usize)
    ensures
        r == match limit {
            Some(n) => n,
            None => 10,
        },
{
    match limit {
        Some(n) => n,
        None => 10,
    }
}

/// A user is in cooldown at `now` when their window exists, has no quota
/// left, and has not reached its end yet.
pub open spec fn cooling_down(w: Option<(u32, Millis)>, now: Millis) -> bool {
    w matches Some((remaining, reset_at)) && remaining == 0 && now <= reset_at
}

/// Whether `user_id` is in cooldown at `now`; reads the window without
/// creating one.
pub fn in_cooldown_at(limiter: &RateLimiter, user_id: &str, now: Millis) -> (r: bool)
    requires
        limiter.wf(),
    ensures
        r == cooling_down(limiter.window(user_id@), now),
{
    match limiter.get_limit_info(user_id) {
        Some(info) => info.remaining_requests == 0 && now <= info.reset_at,
        None => false,
    }
}

/// Whether `user_id` is in cooldown at the current time.
pub fn in_cooldown(limiter: &RateLimiter, user_id: &str) -> (r: bool)
    requires
        limiter.wf(),
    ensures
        exists|now: Millis| r == cooling_down(limiter.window(user_id@), now),
{
    let now = now_millis();
    in_cooldown_at(limiter, user_id, now)
}

/// `r` is the stand-in served during a cooldown (see `serve_cooldown_with`).
pub open spec fn cooldown_served(
    last: Option<Saying>,
    sample: Seq<Saying>,
    draw: usize,
    r: Result<Saying, ApiError>,
) -> bool {
    &&& last matches Some(s) ==> r == Ok::<Saying, ApiError>(Saying { source: SayingSource::Cache, ..s })
    &&& last is None && sample.len() > 0 ==> r == Ok::<Saying, ApiError>(
        Saying { source: SayingSource::Cache, ..sample[draw as int % sample.len() as int] },
    )
    &&& last is None && sample.len() == 0 ==> r matches Err(ApiError::RateLimited(_))
}

/// The stand-in served during a cooldown: the user's own last result if
/// there is one, else the sample entry at `draw` modulo the sample size,
/// marked as served from the cache; `RateLimited` when there is neither.
pub fn serve_cooldown_with(last: Option<Saying>, sample: Vec<Saying>, draw: usize) -> (r: Result<
    Saying,
    ApiError,
>)
    ensures
        cooldown_served(last, sample@, draw, r),
{
    match last {
        Some(s) => Ok(s.as_cached()),
        None => {
            if sample.len() == 0 {
                Err(
                    ApiError::RateLimited(
                        String::from_str(
                            "You have exceeded the rate limit and no cached saying was available.",
                        ),
                    ),
                )
            } else {
                Ok(sample[draw % sample.len()].clone().as_cached())
            }
        },
    }
}

/// `serve_cooldown_with` with a uniform draw from the sample.
pub fn serve_cooldown(last: Option<Saying>, sample: Vec<Saying>) -> (r: Result<Saying, ApiError>)
    ensures
        last matches Some(s) ==> r == Ok::<Saying, ApiError>(Saying { source: SayingSource::Cache, ..s }),
        last is None && sample@.len() > 0 ==> exists|i: int|
            0 <= i < sample@.len() && r == Ok::<Saying, ApiError>(
                Saying { source: SayingSource::Cache, ..#[trigger] sample@[i] },
            ),
        last is None && sample@.len() == 0 ==> r matches Err(ApiError::RateLimited(_)),
{
    let n = sample.len();
    let draw = if n > 0 {
        random_below(n)
    } else {
        0
    };
    let ghost s0 = sample@;
    let r = serve_cooldown_with(last, sample, draw);
    proof {
        if n > 0 {
            vstd::arithmetic::div_mod::lemma_small_mod(draw as nat, n as nat);
            assert(s0[draw as int] == s0[draw as int % s0.len() as int]);
        }
    }
    r
}

/// The prompts for one call of the generator.
#[derive(Debug)]
pub struct GenerationPlan {
    pub system_prompt: String,
    pub user_prompt: String,
    pub preset_id: Option<String>,
}

/// `p` holds exactly these prompts and preset.
pub open spec fn plan_is(
    p: GenerationPlan,
    system: Seq<char>,
    user: Seq<char>,
    preset: Option<Seq<char>>,
) -> bool {
    p.system_prompt@ == system && p.user_prompt@ == user && opt_text(p.preset_id) == preset
}

/// The system prompt used with a free-form prompt.
pub open spec fn generic_system_prompt() -> Seq<char> {
    "You are a helpful assistant."@
}

/// `system` with the translation directive for `language_id` appended, when
/// the language is not English and the directive is not empty.
pub open spec fn with_language(system: Seq<char>, language_id: Seq<char>) -> Seq<char> {
    if language_id != "en"@ && translation_prompt(language_id).len() > 0 {
        system + "\n\n"@ + translation_prompt(language_id)
    } else {
        system
    }
}

/// Appends the translation directive for `language_id` to `system`.
pub fn system_prompt_for_language(system: String, language_id: &str) -> (r: String)
    ensures
        r@ == with_language(system@, language_id@),
{
    if !same_text(language_id, "en") {
        let directive = get_translation_prompt(language_id);
        if directive.as_str().unicode_len() > 0 {
            return system.concat("\n\n").concat(directive.as_str());
        }
    }
    system
}

/// The prompts of the preset `preset_id`: its system prompt and its user
/// prompt at `draw`.
pub open spec fn preset_prompts(
    catalog: Seq<Preset>,
    preset_id: Seq<char>,
    draw: usize,
) -> Option<(Seq<char>, Seq<char>)> {
    match position_of_id(catalog, preset_id) {
        None => None,
        Some(i) => {
            let prompts = catalog[i].user_prompts@;
            if prompts.len() == 0 {
                None
            } else {
                Some((catalog[i].system_prompt@, prompts[draw as int % prompts.len() as int]@))
            }
        },
    }
}

fn preset_error_message(e: PresetError, preset_id: &str) -> (r: String) {
    match e {
        PresetError::NotFound => String::from_str("Preset not found: ").concat(preset_id),
        PresetError::EmptyCatalog => String::from_str("No user prompts available for preset: ").concat(
            preset_id,
        ),
        PresetError::InvalidPreset => String::from_str("Invalid preset: ").concat(preset_id),
    }
}

/// The system prompt of the preset `preset_id` paired with its user prompt
/// at `prompt_draw`, if the preset exists and has prompts.
fn prompts_of_preset(presets: &Presets, preset_id: &str, prompt_draw: usize) -> (r: Option<(String, String)>)
    ensures
        match preset_prompts(presets.catalog(), preset_id@, prompt_draw) {
            None => r is None,
            Some((system, user)) => r matches Some((s, u)) && s@ == system && u@ == user,
        },
{
    let preset = presets.get_preset_by_id(preset_id);
    let prompt = presets.user_prompt_for_draw(preset_id, prompt_draw);
    match (preset, prompt) {
        (Some(p), Ok(u)) => Some((p.system_prompt, u)),
        _ => None,
    }
}

/// The admission check at `now` turned `w0` into `w1`, and `r` is the plan
/// `(system + directive for language, user, preset)` if it admitted the
/// request, `RateLimited` if it did not.
pub open spec fn admitted_plan(
    w0: Option<(u32, Millis)>,
    w1: Option<(u32, Millis)>,
    max: u32,
    window_seconds: u64,
    now: Millis,
    r: Result<GenerationPlan, ApiError>,
    system: Seq<char>,
    user: Seq<char>,
    preset: Option<Seq<char>>,
    language_id: Seq<char>,
) -> bool {
    let (admitted, w) = check_step(w0, max, window_end(now, window_seconds), now);
    &&& w1 == w
    &&& if admitted {
        r matches Ok(plan) && plan_is(plan, with_language(system, language_id), user, preset)
    } else {
        r matches Err(ApiError::RateLimited(_))
    }
}

/// The window of a user after making sure one exists: a missing one is
/// replaced by a full window opening at `now`.
pub open spec fn ensured_window(
    w: Option<(u32, Millis)>,
    max: u32,
    window_seconds: u64,
    now: Millis,
) -> (u32, Millis) {
    match w {
        Some(x) => x,
        None => (max, window_end(now, window_seconds)),
    }
}

/// A request with neither prompt nor preset: the user's window is made sure
/// of, `sel` is the outcome of the sticky selection against it, and the
/// prompt of the selected preset goes through the admission check.
pub open spec fn pinned_outcome(
    lim0: RateLimiter,
    lim1: RateLimiter,
    pre: Presets,
    post: Presets,
    user: Seq<char>,
    language_id: Seq<char>,
    now: Millis,
    preset_draw: usize,
    prompt_draw: usize,
    sel: Result<Preset, PresetError>,
    r: Result<GenerationPlan, ApiError>,
) -> bool {
    let w1 = ensured_window(lim0.window(user), lim0.max(), lim0.window_seconds(), now);
    &&& selection_outcome(pre, post, user, w1.1, now, preset_draw, sel)
    &&& match sel {
        Err(_) => r matches Err(ApiError::InternalError(_)) && lim1.window(user) == Some(w1),
        Ok(p) => match preset_prompts(post.catalog(), p.id@, prompt_draw) {
            None => r matches Err(ApiError::InternalError(_)) && lim1.window(user) == Some(w1),
            Some((_, prompt)) => admitted_plan(
                Some(w1),
                lim1.window(user),
                lim0.max(),
                lim0.window_seconds(),
                now,
                r,
                p.system_prompt@,
                prompt,
                Some(p.id@),
                language_id,
            ),
        },
    }
}

/// What planning a request does, case by case: a refused user changes
/// nothing; a free-form prompt, an explicit preset and the pinned preset are
/// resolved as `plan_generation_at` describes.
pub open spec fn planning_outcome(
    lim0: RateLimiter,
    lim1: RateLimiter,
    pre: Presets,
    post: Presets,
    user: Seq<char>,
    request: SayingRequest,
    language_id: Seq<char>,
    now: Millis,
    preset_draw: usize,
    prompt_draw: usize,
    release_build: bool,
    r: Result<GenerationPlan, ApiError>,
) -> bool {
    &&& (!user_allowed(user, release_build) ==> {
            &&& r matches Err(ApiError::AccessDenied(_))
            &&& lim1 == lim0
            &&& post == pre
        })
    &&& (user_allowed(user, release_build) && request.prompt is Some ==> {
            &&& post == pre
            &&& admitted_plan(
                lim0.window(user),
                lim1.window(user),
                lim0.max(),
                lim0.window_seconds(),
                now,
                r,
                generic_system_prompt(),
                request.prompt.unwrap()@,
                None,
                language_id,
            )
        })
    &&& (user_allowed(user, release_build) && request.prompt is None && request.preset_id is Some ==> {
            &&& post == pre
            &&& match preset_prompts(pre.catalog(), request.preset_id.unwrap()@, prompt_draw) {
                None => r matches Err(ApiError::BadRequest(_)) && lim1 == lim0,
                Some((system, prompt)) => admitted_plan(
                    lim0.window(user),
                    lim1.window(user),
                    lim0.max(),
                    lim0.window_seconds(),
                    now,
                    r,
                    system,
                    prompt,
                    Some(request.preset_id.unwrap()@),
                    language_id,
                ),
            }
        })
    &&& (user_allowed(user, release_build) && request.prompt is None && request.preset_id is None
            ==> exists|sel: Result<Preset, PresetError>|
            #[trigger] pinned_outcome(
                lim0,
                lim1,
                pre,
                post,
                user,
                language_id,
                now,
                preset_draw,
                prompt_draw,
                sel,
                r,
            ))
}

/// Resolves the prompts of a request for `user_id` outside a cooldown and
/// runs the admission check, all at time `now`; `preset_draw` picks a preset
/// when one must be pinned and `prompt_draw` picks the user prompt of a
/// preset. A free-form prompt runs under the generic system prompt with no
/// preset; an explicit preset id must exist (else `BadRequest`); with
/// neither, the user's window is opened if missing and the preset pinned to
/// it is used. The system prompt then gets the translation directive of
/// `language_id`.
pub fn plan_generation_at(
    limiter: &mut RateLimiter,
    presets: &mut Presets,
    user_id: &str,
    request: &SayingRequest,
    language_id: &str,
    now: Millis,
    preset_draw: usize,
    prompt_draw: usize,
    release_build: bool,
) -> (r: Result<GenerationPlan, ApiError>)
    requires
        old(limiter).wf(),
        old(presets).wf(),
    ensures
        final(limiter).wf(),
        final(presets).wf(),
        final(limiter).max() == old(limiter).max(),
        final(limiter).window_seconds() == old(limiter).window_seconds(),
        forall|u: Seq<char>| u != user_id@ ==> final(limiter).window(u) == old(limiter).window(u),
        planning_outcome(
            *old(limiter),
            *final(limiter),
            *old(presets),
            *final(presets),
            user_id@,
            *request,
            language_id@,
            now,
            preset_draw,
            prompt_draw,
            release_build,
            r,
        ),
{
    if let Err(e) = is_user_allowed(user_id, release_build) {
        return Err(e);
    }
    let ghost lim0 = *limiter;
    let ghost pre0 = *presets;
    let ghost mut chosen: Result<Preset, PresetError> = Err(PresetError::EmptyCatalog);
    let resolved: Result<(String, String, Option<String>), ApiError> = match (
        &request.prompt,
        &request.preset_id,
    ) {
        (Some(p), _) => Ok((String::from_str("You are a helpful assistant."), p.clone(), None)),
        (None, Some(id)) => match prompts_of_preset(presets, id.as_str(), prompt_draw) {
            None => {
                let e = match presets.get_preset_by_id(id.as_str()) {
                    None => preset_error_message(PresetError::NotFound, id.as_str()),
                    Some(_) => String::from_str("Failed to get prompt from preset: ").concat(
                        preset_error_message(PresetError::EmptyCatalog, id.as_str()).as_str(),
                    ),
                };
                Err(ApiError::BadRequest(e))
            },
            Some((system, user)) => Ok((system, user, Some(id.clone()))),
        },
        (None, None) => {
            if limiter.get_limit_info(user_id).is_none() {
                limiter.reset_at(user_id, now);
            }
            match limiter.get_limit_info(user_id) {
                None => Err(
                    ApiError::InternalError(
                        String::from_str("Failed to get rate limit info after initialization"),
                    ),
                ),
                Some(info) => {
                    let sel = presets.get_or_select_preset_at(user_id, info.reset_at, now, preset_draw);
                    proof {
                        chosen = sel;
                    }
                    match sel {
                        Err(_) => Err(
                            ApiError::InternalError(
                                String::from_str("Failed to select preset: No presets available"),
                            ),
                        ),
                        Ok(p) => match presets.user_prompt_for_draw(p.id.as_str(), prompt_draw) {
                            Err(e) => Err(
                                ApiError::InternalError(
                                    String::from_str("Failed to get prompt from preset: ").concat(
                                        preset_error_message(e, p.id.as_str()).as_str(),
                                    ),
                                ),
                            ),
                            Ok(user) => Ok((p.system_prompt, user, Some(p.id))),
                        },
                    }
                },
            }
        },
    };
    let r = match resolved {
        Err(e) => Err(e),
        Ok((system, user, preset_id)) => {
            let system_prompt = system_prompt_for_language(system, language_id);
            if limiter.check_at(user_id, now) {
                Ok(GenerationPlan { system_prompt, user_prompt: user, preset_id })
            } else {
                Err(
                    ApiError::RateLimited(
                        String::from_str("You have exceeded the rate limit for this endpoint"),
                    ),
                )
            }
        },
    };
    proof {
        if request.prompt is None && request.preset_id is None {
            assert(pinned_outcome(
                lim0,
                *limiter,
                pre0,
                *presets,
                user_id@,
                language_id@,
                now,
                preset_draw,
                prompt_draw,
                chosen,
                r,
            ));
        }
    }
    r
}

/// `plan_generation_at` at the current time. The preset is drawn uniformly
/// from the catalog; the prompt index is a draw from the whole `usize` range
/// taken modulo the preset's prompt count.
pub fn plan_generation(
    limiter: &mut RateLimiter,
    presets: &mut Presets,
    user_id: &str,
    request: &SayingRequest,
    language_id: &str,
    release_build: bool,
) -> (r: Result<GenerationPlan, ApiError>)
    requires
        old(limiter).wf(),
        old(presets).wf(),
    ensures
        final(limiter).wf(),
        final(presets).wf(),
        final(limiter).max() == old(limiter).max(),
        final(limiter).window_seconds() == old(limiter).window_seconds(),
        forall|u: Seq<char>| u != user_id@ ==> final(limiter).window(u) == old(limiter).window(u),
        exists|now: Millis, preset_draw: usize, prompt_draw: usize|
            #[trigger] planning_outcome(
                *old(limiter),
                *final(limiter),
                *old(presets),
                *final(presets),
                user_id@,
                *request,
                language_id@,
                now,
                preset_draw,
                prompt_draw,
                release_build,
                r,
            ),
{
    let now = now_millis();
    let n = presets.preset_count();
    let preset_draw = if n > 0 {
        random_below(n)
    } else {
        0
    };
    let prompt_draw = random_below(usize::MAX);
    plan_generation_at(
        limiter,
        presets,
        user_id,
        request,
        language_id,
        now,
        preset_draw,
        prompt_draw,
        release_build,
    )
}

/// What the generator returned, made into the answer: a success is tagged as
/// generated and attributed to `preset_id`; a failure passes its message on.
pub fn finish_generation(generated: Result<Saying, String>, preset_id: Option<String>) -> (r: Result<
    Saying,
    ApiError,
>)
    ensures
        match generated {
            Ok(s) => r == Ok::<Saying, ApiError>(
                Saying { source: SayingSource::LLM, preset_id: preset_id, ..s },
            ),
            Err(m) => r == Err::<Saying, ApiError>(ApiError::OpenRouterError(m)),
        },
{
    match generated {
        Ok(s) => Ok(Saying { source: SayingSource::LLM, preset_id, ..s }),
        Err(m) => Err(ApiError::OpenRouterError(m)),
    }
}

/// What a user can see of their own state.
#[derive(Debug)]
pub struct UserStatus {
    pub user_id: String,
    pub can_query: bool,
    pub remaining_requests: u32,
    pub reset_at: Option<Millis>,
    pub last_saying: Option<Saying>,
    pub selected_preset: Option<Preset>,
}

/// The status `st` shown to `user` at `now`, as `user_status_at` describes.
pub open spec fn status_outcome(
    limiter: RateLimiter,
    pre: Presets,
    post: Presets,
    user: Seq<char>,
    last: Option<Saying>,
    now: Millis,
    draw: usize,
    st: UserStatus,
) -> bool {
    st.user_id@ == user && match limiter.window(user) {
            None => {
                &&& st.can_query
                &&& st.remaining_requests == limiter.max()
                &&& st.reset_at is None
                &&& st.last_saying is None
                &&& post == pre
                &&& match position_of_id(pre.catalog(), default_preset_id()) {
                    Some(i) => st.selected_preset matches Some(p) && same_preset(p, pre.catalog()[i]),
                    None => if pre.catalog().len() > 0 {
                        st.selected_preset matches Some(p) && same_preset(p, pre.catalog()[0])
                    } else {
                        st.selected_preset is None
                    },
                }
            },
            Some((remaining, reset_at)) => {
                &&& st.can_query == !cooling_down(limiter.window(user), now)
                &&& st.remaining_requests == if now > reset_at {
                    limiter.max()
                } else {
                    remaining
                }
                &&& st.reset_at == Some(reset_at)
                &&& st.last_saying == last
                &&& if st.can_query {
                    exists|sel: Result<Preset, PresetError>|
                        #[trigger] selection_outcome(pre, post, user, reset_at, now, draw, sel)
                        && match sel {
                            Ok(p) => st.selected_preset matches Some(q) && same_preset(q, p),
                            Err(_) => st.selected_preset is None,
                        }
                } else {
                    st.selected_preset is None && post == pre
                }
            },
        }
}

/// The status of `user_id` at `now`. A user without a window can query, has
/// the full quota, and is shown the default preset. A user with a window
/// sees its quota (the full quota once the window has ended) and reset time
/// and `last`, their latest result; unless in cooldown, the user can query
/// and is shown the preset pinned to the window (pinned now with `draw` if
/// needed).
pub fn user_status_at(
    limiter: &RateLimiter,
    presets: &mut Presets,
    user_id: &str,
    last: Option<Saying>,
    now: Millis,
    draw: usize,
    release_build: bool,
) -> (r: Result<UserStatus, ApiError>)
    requires
        limiter.wf(),
        old(presets).wf(),
    ensures
        final(presets).wf(),
        !user_allowed(user_id@, release_build) ==> (r matches Err(ApiError::AccessDenied(_))
            && *final(presets) == *old(presets)),
        user_allowed(user_id@, release_build) ==> r is Ok,
        r matches Ok(st) ==> status_outcome(
            *limiter,
            *old(presets),
            *final(presets),
            user_id@,
            last,
            now,
            draw,
            st,
        ),
{
    if let Err(e) = is_user_allowed(user_id, release_build) {
        return Err(e);
    }
    match limiter.get_limit_info(user_id) {
        None => {
            let selected_preset = match presets.get_default_preset() {
                Ok(p) => Some(p),
                Err(_) => None,
            };
            Ok(
                UserStatus {
                    user_id: user_id.to_owned(),
                    can_query: true,
                    remaining_requests: limiter.max_requests(),
                    reset_at: None,
                    last_saying: None,
                    selected_preset,
                },
            )
        },
        Some(info) => {
            let can_query = info.remaining_requests > 0 || now > info.reset_at;
            let remaining_requests = if now > info.reset_at {
                limiter.max_requests()
            } else {
                info.remaining_requests
            };
            let ghost mut picked: Result<Preset, PresetError> = Err(PresetError::EmptyCatalog);
            let selected_preset = if can_query {
                let sel = presets.get_or_select_preset_at(user_id, info.reset_at, now, draw);
                proof {
                    picked = sel;
                }
                match sel {
                    Ok(p) => Some(p),
                    Err(_) => None,
                }
            } else {
                None
            };
            let st = UserStatus {
                user_id: user_id.to_owned(),
                can_query,
                remaining_requests,
                reset_at: Some(info.reset_at),
                last_saying: last,
                selected_preset,
            };
            proof {
                let w = limiter.window(user_id@);
                assert(w == Some((info.remaining_requests, info.reset_at)));
                if can_query {
                    assert(selection_outcome(*old(presets), *presets, user_id@, w.unwrap().1, now, draw, picked));
                }
            }
            assert(status_outcome(*limiter, *old(presets), *presets, user_id@, last, now, draw, st));
            Ok(st)
        },
    }
}

/// `user_status_at` at the current time, with a uniform draw when a preset
/// must be pinned.
pub fn user_status(
    limiter: &RateLimiter,
    presets: &mut Presets,
    user_id: &str,
    last: Option<Saying>,
    release_build: bool,
) -> (r: Result<UserStatus, ApiError>)
    requires
        limiter.wf(),
        old(presets).wf(),
    ensures
        final(presets).wf(),
        !user_allowed(user_id@, release_build) ==> (r matches Err(ApiError::AccessDenied(_))
            && *final(presets) == *old(presets)),
        user_allowed(user_id@, release_build) ==> r is Ok,
        r matches Ok(st) ==> exists|now: Millis, draw: usize|
            #[trigger] status_outcome(*limiter, *old(presets), *final(presets), user_id@, last, now, draw, st),
{
    let now = now_millis();
    let n = presets.preset_count();
    let draw = if n > 0 {
        random_below(n)
    } else {
        0
    };
    user_status_at(limiter, presets, user_id, last, now, draw, release_build)
}

/// Out of every hundred requests with a cache hit, how many still go to
/// the generator.
pub const GENERATE_PERCENT: u64 = 70;

/// Whether a request with a cache hit reuses it, given a roll in `0..100`
/// (or any number, taken modulo 100): rolls from `GENERATE_PERCENT` up reuse.
pub open spec fn reuses_hit(roll: u64) -> bool {
    roll % 100 >= GENERATE_PERCENT
}

/// The cached result to serve instead of generating, if any: the hit
/// `cached` when `roll` selects reuse, nothing otherwise.
pub fn reuse_or_generate_with(cached: Option<Saying>, roll: u64) -> (r: Option<Saying>)
    ensures
        r == (if cached is Some && reuses_hit(roll) {
            cached
        } else {
            None
        }),
{
    if roll % 100 >= GENERATE_PERCENT {
        cached
    } else {
        None
    }
}

/// `reuse_or_generate_with` with a uniform roll: a hit is reused for thirty
/// requests in a hundred.
pub fn reuse_or_generate(cached: Option<Saying>) -> (r: Option<Saying>)
    ensures
        r is Some ==> r == cached,
        cached is None ==> r is None,
{
    let roll = random_below(100) as u64;
    reuse_or_generate_with(cached, roll)
}

} // verus!
