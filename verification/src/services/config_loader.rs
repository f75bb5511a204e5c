//! Checks of the configuration read from `~/.qwenimage/setting.json`, and
//! the status reported to the frontend.

use vstd::prelude::*;

use crate::commands::generation::effective_service_type;
use crate::error::{error_detail, AppError};
use crate::json::{Json, JsonValue};
use crate::models::config::{ApiMode, ConfigStatus, Configuration, ModelConfig, ModelConfigSpec, ModelInfo, Provider};
use crate::commands::generation::same_text;
use crate::services::template_engine::{infer_service_type, is_valid_path, strings_view, valid_path};
use crate::text::{append_str, blank, has_infix, has_prefix, is_blank, str_contains, str_starts_with};

verus! {

/// What reading the configuration file gave.
#[derive(Debug)]
pub enum ConfigRead {
    /// The home directory could not be determined.
    NoHome,
    /// No file exists at `path`.
    Missing { path: String },
    /// The file at `path` could not be read.
    Unreadable { path: String, detail: String },
    /// The file at `path` is not a valid configuration document.
    Malformed { path: String, detail: String },
    /// The file was read and parsed.
    Parsed(Configuration),
}

/// What is wrong with a model's URL, if anything: it is blank, or it does
/// not start with `http://` or `https://`.
pub open spec fn url_problem(name: Seq<char>, url: Seq<char>) -> Option<Seq<char>> {
    if is_blank(url) {
        Some("Model '"@ + name + "' has an empty URL. Please set the API endpoint URL."@)
    } else if !has_prefix(url, "http://"@) && !has_prefix(url, "https://"@) {
        Some("Model '"@ + name + "' URL must start with http:// or https://. Got: "@ + url)
    } else {
        None
    }
}

/// What is wrong with a model's polling setup, if anything: the async-poll
/// mode without an `async_poll` section; a poll URL without `{task_id}`; a
/// poll interval under one second; a timeout shorter than the interval.
pub open spec fn poll_problem(name: Seq<char>, mc: ModelConfigSpec) -> Option<Seq<char>> {
    match mc.async_poll {
        None => if mc.mode == ApiMode::AsyncPoll {
            Some("Model '"@ + name + "' uses async_poll mode but has no async_poll configuration."@)
        } else {
            None
        },
        Some(p) => if !has_infix(p.poll_url, "{task_id}"@) {
            Some("Model '"@ + name + "' async_poll.poll_url must contain {task_id}. Got: "@ + p.poll_url)
        } else if p.poll_interval_secs < 1 {
            Some("Model '"@ + name + "' async_poll.poll_interval_secs must be at least 1."@)
        } else if p.timeout_secs < p.poll_interval_secs {
            Some(
                "Model '"@ + name
                    + "' async_poll.timeout_secs must not be less than poll_interval_secs."@,
            )
        } else {
            None
        },
    }
}

/// What is wrong with a model's request template, if anything: it is not a
/// JSON object.
pub open spec fn template_problem(name: Seq<char>, mc: ModelConfigSpec) -> Option<Seq<char>> {
    match mc.request_template {
        Some(JsonValue::Object(_)) => None,
        Some(_) => Some("Model '"@ + name + "' request_template must be a JSON object."@),
        None => None,
    }
}

/// What is wrong with a model's response image path, if anything: it is not
/// a valid dot-notation path (see [`valid_path`]).
pub open spec fn path_problem(name: Seq<char>, mc: ModelConfigSpec) -> Option<Seq<char>> {
    match mc.response_image_path {
        Some(p) => if valid_path(p) {
            None
        } else {
            Some("Model '"@ + name + "' response_image_path is not a valid dotted path. Got: "@ + p)
        },
        None => None,
    }
}

/// The first problem of a model definition: URL, then polling, then
/// template, then response path.
pub open spec fn model_problem(name: Seq<char>, mc: ModelConfigSpec) -> Option<Seq<char>> {
    match url_problem(name, mc.url) {
        Some(p) => Some(p),
        None => match poll_problem(name, mc) {
            Some(p) => Some(p),
            None => match template_problem(name, mc) {
                Some(p) => Some(p),
                None => path_problem(name, mc),
            },
        },
    }
}

/// The problem of the first model, in file order, that has one.
pub open spec fn first_model_problem(models: Seq<(String, ModelConfig)>) -> Option<Seq<char>>
    decreases models.len(),
{
    if models.len() == 0 {
        None
    } else {
        match model_problem(models[0].0@, models[0].1@) {
            Some(p) => Some(p),
            None => first_model_problem(models.drop_first()),
        }
    }
}

/// What is wrong with a provider, if anything: a blank API key, no model,
/// or the first problem among its models.
pub open spec fn provider_problem(name: Seq<char>, p: Provider) -> Option<Seq<char>> {
    if is_blank(p.api_key@) {
        Some(
            "Missing apiKey: providers."@ + name
                + ".apiKey is empty. Please set the provider's API key."@,
        )
    } else if p.models@.len() == 0 {
        Some(
            "Missing models: providers."@ + name
                + ".models is empty. Please configure at least one model."@,
        )
    } else {
        first_model_problem(p.models@)
    }
}

/// The problem of the first provider, in file order, that has one.
pub open spec fn first_provider_problem(providers: Seq<(String, Provider)>) -> Option<Seq<char>>
    decreases providers.len(),
{
    if providers.len() == 0 {
        None
    } else {
        match provider_problem(providers[0].0@, providers[0].1) {
            Some(p) => Some(p),
            None => first_provider_problem(providers.drop_first()),
        }
    }
}

/// The names of every configured model, provider by provider, each
/// provider's models in file order.
pub open spec fn all_model_names(providers: Seq<(String, Provider)>) -> Seq<Seq<char>>
    decreases providers.len(),
{
    if providers.len() == 0 {
        Seq::empty()
    } else {
        all_model_names(providers.drop_last()) + providers.last().1.models@.map_values(
            |m: (String, ModelConfig)| m.0@,
        )
    }
}

/// The first name, in order, that repeats one before it, if any.
pub open spec fn repeated_name(names: Seq<Seq<char>>) -> Option<Seq<char>>
    decreases names.len(),
{
    if names.len() == 0 {
        None
    } else {
        match repeated_name(names.drop_last()) {
            Some(n) => Some(n),
            None => if names.drop_last().contains(names.last()) {
                Some(names.last())
            } else {
                None
            },
        }
    }
}

/// The conflict of a model name defined more than once, if any.
pub open spec fn name_conflict(providers: Seq<(String, Provider)>) -> Option<Seq<char>> {
    match repeated_name(all_model_names(providers)) {
        Some(n) => Some(
            "Model '"@ + n + "' is defined more than once. Please give each model a distinct name."@,
        ),
        None => None,
    }
}

/// The detail of what makes a configuration invalid, if anything: no
/// provider at all, the first problem among the providers, or else a model
/// name defined more than once. Every provider and every model is checked.
pub open spec fn validation(c: &Configuration) -> Option<Seq<char>> {
    if c.providers@.len() == 0 {
        Some("Missing providers: providers is empty. Please configure at least one provider."@)
    } else {
        match first_provider_problem(c.providers@) {
            Some(p) => Some(p),
            None => name_conflict(c.providers@),
        }
    }
}

proof fn lemma_repeated_prefix(names: Seq<Seq<char>>, n: int)
    requires
        0 <= n <= names.len(),
        repeated_name(names.take(n)) is Some,
    ensures
        repeated_name(names) == repeated_name(names.take(n)),
    decreases names.len(),
{
    if n == names.len() {
        assert(names.take(n) =~= names);
    } else {
        assert(names.drop_last().take(n) =~= names.take(n));
        lemma_repeated_prefix(names.drop_last(), n);
    }
}

/// The names of every configured model (see [`all_model_names`]).
fn model_names_of(ps: &Vec<(String, Provider)>) -> (names: Vec<String>)
    ensures
        strings_view(names@) == all_model_names(ps@),
{
    let mut names: Vec<String> = Vec::new();
    let mut p: usize = 0;
    assert(ps@.take(0) =~= Seq::<(String, Provider)>::empty());
    assert(strings_view(names@) =~= Seq::<Seq<char>>::empty());
    while p < ps.len()
        invariant
            p <= ps@.len(),
            strings_view(names@) == all_model_names(ps@.take(p as int)),
        decreases ps.len() - p,
    {
        let models = &ps[p].1.models;
        let ghost before = strings_view(names@);
        let mut k: usize = 0;
        assert(models@.take(0).map_values(|m: (String, ModelConfig)| m.0@) =~= Seq::<Seq<char>>::empty());
        assert(before + Seq::<Seq<char>>::empty() =~= before);
        while k < models.len()
            invariant
                k <= models@.len(),
                strings_view(names@) == before + models@.take(k as int).map_values(
                    |m: (String, ModelConfig)| m.0@,
                ),
            decreases models.len() - k,
        {
            let ghost prev = strings_view(names@);
            names.push(models[k].0.clone());
            assert(strings_view(names@) =~= prev.push(models@[k as int].0@));
            assert(models@.take(k + 1).map_values(|m: (String, ModelConfig)| m.0@) =~= models@.take(
                k as int,
            ).map_values(|m: (String, ModelConfig)| m.0@).push(models@[k as int].0@));
            k = k + 1;
        }
        assert(models@.take(models@.len() as int) =~= models@);
        let ghost taken = ps@.take(p + 1);
        assert(taken.drop_last() =~= ps@.take(p as int));
        assert(taken.last() == ps@[p as int]);
        assert(strings_view(names@) =~= all_model_names(taken));
        p = p + 1;
    }
    assert(ps@.take(ps@.len() as int) =~= ps@);
    names
}

/// The conflict of a model name defined more than once (see [`name_conflict`]).
pub fn check_distinct_names(ps: &Vec<(String, Provider)>) -> (r: Option<AppError>)
    ensures
        match r {
            Some(e) => name_conflict(ps@) == Some(error_detail(e)) && e is Config,
            None => name_conflict(ps@) == None::<Seq<char>>,
        },
{
    let names = model_names_of(ps);
    let ghost all = strings_view(names@);
    let mut j: usize = 0;
    assert(all.take(0) =~= Seq::<Seq<char>>::empty());
    while j < names.len()
        invariant
            j <= names@.len(),
            all == strings_view(names@),
            all.len() == names@.len(),
            repeated_name(all.take(j as int)) == None::<Seq<char>>,
            all == all_model_names(ps@),
        decreases names.len() - j,
    {
        let mut i: usize = 0;
        while i < j
            invariant
                i <= j < names@.len(),
                all == strings_view(names@),
                all.len() == names@.len(),
                forall|t: int| 0 <= t < i ==> all[t] != all[j as int],
                repeated_name(all.take(j as int)) == None::<Seq<char>>,
                all == all_model_names(ps@),
            decreases j - i,
        {
            if same_text(names[i].as_str(), names[j].as_str()) {
                proof {
                    let pre = all.take(j + 1);
                    assert(pre.drop_last() =~= all.take(j as int));
                    assert(pre.last() == all[j as int]);
                    assert(pre.drop_last()[i as int] == all[j as int]);
                    assert(pre.drop_last().contains(pre.last()));
                    assert(repeated_name(pre) == Some(all[j as int]));
                    lemma_repeated_prefix(all, j + 1);
                    assert(all[j as int] == names@[j as int]@);
                }
                let mut m = String::new();
                append_str(&mut m, "Model '");
                append_str(&mut m, names[j].as_str());
                append_str(&mut m, "' is defined more than once. Please give each model a distinct name.");
                return Some(AppError::Config(m));
            }
            i = i + 1;
        }
        proof {
            let pre = all.take(j + 1);
            assert(pre.drop_last() =~= all.take(j as int));
            assert(pre.last() == all[j as int]);
            assert forall|t: int| 0 <= t < pre.drop_last().len() implies pre.drop_last()[t] != pre.last() by {
                assert(pre.drop_last()[t] == all[t]);
            }
        }
        j = j + 1;
    }
    assert(all.take(all.len() as int) =~= all);
    None
}

/// The detail of the configuration error that loading gives, if any, from
/// what reading the file gave.
pub open spec fn load_problem(read: ConfigRead) -> Option<Seq<char>> {
    match read {
        ConfigRead::NoHome => Some("Cannot determine home directory"@),
        ConfigRead::Missing { path } => Some(
            "Configuration file not found: "@ + path@
                + ". Please create it with your API key and model endpoints."@,
        ),
        ConfigRead::Unreadable { path, detail } => Some(
            "Failed to read configuration file "@ + path@ + ": "@ + detail@,
        ),
        ConfigRead::Malformed { path, detail } => Some(
            "Configuration file format error: "@ + detail@ + ". Please check that "@ + path@
                + " is valid JSON."@,
        ),
        ConfigRead::Parsed(c) => validation(&c),
    }
}

fn config_error(text: &str) -> (e: AppError)
    ensures
        e is Config,
        error_detail(e) == text@,
{
    let mut m = String::new();
    append_str(&mut m, text);
    AppError::Config(m)
}

/// `Model '{name}'{rest}` as a configuration error.
fn model_error(name: &str, rest: &str) -> (e: AppError)
    ensures
        e is Config,
        error_detail(e) == "Model '"@ + name@ + rest@,
{
    let mut m = String::new();
    append_str(&mut m, "Model '");
    append_str(&mut m, name);
    append_str(&mut m, rest);
    AppError::Config(m)
}

/// What is wrong with a model definition, if anything (see [`model_problem`]).
pub fn check_model(name: &str, mc: &ModelConfig) -> (r: Option<AppError>)
    ensures
        match r {
            Some(e) => model_problem(name@, mc@) == Some(error_detail(e)) && e is Config,
            None => model_problem(name@, mc@) == None::<Seq<char>>,
        },
{
    let url = mc.url.as_str();
    if blank(url) {
        return Some(model_error(name, "' has an empty URL. Please set the API endpoint URL."));
    }
    if !str_starts_with(url, "http://") && !str_starts_with(url, "https://") {
        let mut m = String::new();
        append_str(&mut m, "Model '");
        append_str(&mut m, name);
        append_str(&mut m, "' URL must start with http:// or https://. Got: ");
        append_str(&mut m, url);
        return Some(AppError::Config(m));
    }
    match &mc.async_poll {
        None => {
            if mc.mode == ApiMode::AsyncPoll {
                return Some(
                    model_error(name, "' uses async_poll mode but has no async_poll configuration."),
                );
            }
        },
        Some(p) => {
            if !str_contains(p.poll_url.as_str(), "{task_id}") {
                let mut m = String::new();
                append_str(&mut m, "Model '");
                append_str(&mut m, name);
                append_str(&mut m, "' async_poll.poll_url must contain {task_id}. Got: ");
                append_str(&mut m, p.poll_url.as_str());
                return Some(AppError::Config(m));
            }
            if p.poll_interval_secs < 1 {
                return Some(model_error(name, "' async_poll.poll_interval_secs must be at least 1."));
            }
            if p.timeout_secs < p.poll_interval_secs {
                return Some(
                    model_error(
                        name,
                        "' async_poll.timeout_secs must not be less than poll_interval_secs.",
                    ),
                );
            }
        },
    }
    match &mc.request_template {
        Some(Json::Object(_)) => {},
        Some(_) => {
            return Some(model_error(name, "' request_template must be a JSON object."));
        },
        None => {},
    }
    match &mc.response_image_path {
        Some(p) => {
            if is_valid_path(p.as_str()) {
                None
            } else {
                let mut m = String::new();
                append_str(&mut m, "Model '");
                append_str(&mut m, name);
                append_str(&mut m, "' response_image_path is not a valid dotted path. Got: ");
                append_str(&mut m, p.as_str());
                Some(AppError::Config(m))
            }
        },
        None => None,
    }
}

/// What is wrong with a provider, if anything (see [`provider_problem`]).
pub fn check_provider(name: &str, provider: &Provider) -> (r: Option<AppError>)
    ensures
        match r {
            Some(e) => provider_problem(name@, *provider) == Some(error_detail(e)) && e is Config,
            None => provider_problem(name@, *provider) == None::<Seq<char>>,
        },
{
    if blank(provider.api_key.as_str()) {
        let mut m = String::new();
        append_str(&mut m, "Missing apiKey: providers.");
        append_str(&mut m, name);
        append_str(&mut m, ".apiKey is empty. Please set the provider's API key.");
        return Some(AppError::Config(m));
    }
    if provider.models.len() == 0 {
        let mut m = String::new();
        append_str(&mut m, "Missing models: providers.");
        append_str(&mut m, name);
        append_str(&mut m, ".models is empty. Please configure at least one model.");
        return Some(AppError::Config(m));
    }
    let models = &provider.models;
    let mut k: usize = 0;
    assert(models@.skip(0) =~= models@);
    while k < models.len()
        invariant
            k <= models@.len(),
            *models == provider.models,
            !is_blank(provider.api_key@),
            models@.len() > 0,
            first_model_problem(models@) == first_model_problem(models@.skip(k as int)),
        decreases models.len() - k,
    {
        assert(models@.skip(k as int)[0] == models@[k as int]);
        assert(models@.skip(k as int).drop_first() =~= models@.skip(k + 1));
        match check_model(models[k].0.as_str(), &models[k].1) {
            Some(e) => {
                return Some(e);
            },
            None => {},
        }
        k = k + 1;
    }
    assert(models@.skip(models@.len() as int) =~= Seq::<(String, ModelConfig)>::empty());
    None
}

/// Check a parsed configuration (see [`validation`]).
pub fn validate_config(config: &Configuration) -> (r: Result<(), AppError>)
    ensures
        match validation(config) {
            None => r is Ok,
            Some(d) => r matches Err(e) && e is Config && error_detail(e) == d,
        },
{
    let ps = &config.providers;
    if ps.len() == 0 {
        return Err(
            config_error(
                "Missing providers: providers is empty. Please configure at least one provider.",
            ),
        );
    }
    let mut k: usize = 0;
    assert(ps@.skip(0) =~= ps@);
    while k < ps.len()
        invariant
            k <= ps@.len(),
            *ps == config.providers,
            ps@.len() > 0,
            first_provider_problem(ps@) == first_provider_problem(ps@.skip(k as int)),
        decreases ps.len() - k,
    {
        assert(ps@.skip(k as int)[0] == ps@[k as int]);
        assert(ps@.skip(k as int).drop_first() =~= ps@.skip(k + 1));
        match check_provider(ps[k].0.as_str(), &ps[k].1) {
            Some(e) => {
                return Err(e);
            },
            None => {},
        }
        k = k + 1;
    }
    assert(ps@.skip(ps@.len() as int) =~= Seq::<(String, Provider)>::empty());
    match check_distinct_names(ps) {
        Some(e) => Err(e),
        None => Ok(()),
    }
}

/// Attempt to load the configuration from what reading the file gave,
/// returning the parsed `Configuration` and a description of every
/// configured model (see [`load_problem`] and [`describes_models`]).
pub fn load_config_inner(read: ConfigRead) -> (r: Result<(Configuration, Vec<ModelInfo>), AppError>)
    ensures
        match load_problem(read) {
            None => r matches Ok((c, v)) && read == ConfigRead::Parsed(c) && describes_models(
                v@,
                c.providers@,
            ),
            Some(d) => r matches Err(e) && e is Config && error_detail(e) == d,
        },
{
    match read {
        ConfigRead::NoHome => Err(config_error("Cannot determine home directory")),
        ConfigRead::Missing { path } => {
            let mut m = String::new();
            append_str(&mut m, "Configuration file not found: ");
            append_str(&mut m, path.as_str());
            append_str(&mut m, ". Please create it with your API key and model endpoints.");
            Err(AppError::Config(m))
        },
        ConfigRead::Unreadable { path, detail } => {
            let mut m = String::new();
            append_str(&mut m, "Failed to read configuration file ");
            append_str(&mut m, path.as_str());
            append_str(&mut m, ": ");
            append_str(&mut m, detail.as_str());
            Err(AppError::Config(m))
        },
        ConfigRead::Malformed { path, detail } => {
            let mut m = String::new();
            append_str(&mut m, "Configuration file format error: ");
            append_str(&mut m, detail.as_str());
            append_str(&mut m, ". Please check that ");
            append_str(&mut m, path.as_str());
            append_str(&mut m, " is valid JSON.");
            Err(AppError::Config(m))
        },
        ConfigRead::Parsed(config) => {
            match validate_config(&config) {
                Ok(()) => {
                    let infos = model_infos(&config);
                    Ok((config, infos))
                },
                Err(e) => Err(e),
            }
        },
    }
}

/// `info` describes the model `name`, configured as `mc` under the provider
/// `provider`: its name, provider, effective service type and size support.
pub open spec fn describes(info: ModelInfo, provider: Seq<char>, name: Seq<char>, mc: ModelConfig) -> bool {
    &&& info.name@ == name
    &&& info.provider@ == provider
    &&& info.service_type == effective_service_type(name, &mc)
    &&& info.supports_size == mc.supports_size
}

/// Descriptions of the models of the providers `ps`, provider by provider,
/// each provider's models in file order.
pub open spec fn describes_models(infos: Seq<ModelInfo>, ps: Seq<(String, Provider)>) -> bool
    decreases ps.len(),
{
    if ps.len() == 0 {
        infos.len() == 0
    } else {
        let models = ps.last().1.models@;
        let n = infos.len() - models.len();
        &&& infos.len() >= models.len()
        &&& describes_models(infos.take(n), ps.drop_last())
        &&& forall|k: int|
            0 <= k < models.len() ==> describes(
                #[trigger] infos[n + k],
                ps.last().0@,
                models[k].0@,
                models[k].1,
            )
    }
}

/// Descriptions of every configured model.
fn model_infos(config: &Configuration) -> (infos: Vec<ModelInfo>)
    ensures
        describes_models(infos@, config.providers@),
{
    let mut infos: Vec<ModelInfo> = Vec::new();
    let mut p: usize = 0;
    assert(config.providers@.take(0) =~= Seq::<(String, Provider)>::empty());
    while p < config.providers.len()
        invariant
            p <= config.providers@.len(),
            describes_models(infos@, config.providers@.take(p as int)),
        decreases config.providers.len() - p,
    {
        let provider_name = &config.providers[p].0;
        let models = &config.providers[p].1.models;
        let ghost before = infos@;
        let mut k: usize = 0;
        while k < models.len()
            invariant
                k <= models@.len(),
                infos@.len() == before.len() + k,
                infos@.take(before.len() as int) == before,
                forall|t: int|
                    0 <= t < k ==> describes(
                        #[trigger] infos@[before.len() + t],
                        provider_name@,
                        models@[t].0@,
                        models@[t].1,
                    ),
            decreases models.len() - k,
        {
            let name = models[k].0.clone();
            let mc = &models[k].1;
            let service_type = match mc.service_type {
                Some(t) => t,
                None => infer_service_type(name.as_str()),
            };
            let provider = provider_name.clone();
            let ghost prev = infos@;
            infos.push(ModelInfo { name, provider, service_type, supports_size: mc.supports_size });
            assert(infos@.take(before.len() as int) =~= prev.take(before.len() as int));
            k = k + 1;
        }
        let ghost ps = config.providers@.take(p + 1);
        assert(ps.drop_last() =~= config.providers@.take(p as int));
        assert(ps.last() == config.providers@[p as int]);
        assert(describes_models(infos@, ps));
        p = p + 1;
    }
    assert(config.providers@.take(config.providers@.len() as int) =~= config.providers@);
    infos
}

/// Load and validate the configuration from what reading
/// `~/.qwenimage/setting.json` gave. The status says whether loading
/// succeeded; on success it describes every configured model, provider by
/// provider, on failure it carries the error's message.
pub fn load_config(read: ConfigRead) -> (status: ConfigStatus)
    ensures
        status.loaded == (load_problem(read) is None),
        load_problem(read) is None ==> status.error_message is None && (read matches ConfigRead::Parsed(c)
            && describes_models(status.available_models@, c.providers@)),
        load_problem(read) matches Some(d) ==> status.available_models@.len() == 0 && (
        status.error_message matches Some(m) && m@ == "Configuration error: "@ + d),
{
    match load_config_inner(read) {
        Ok((_config, models)) => ConfigStatus {
            loaded: true,
            available_models: models,
            error_message: None,
        },
        Err(err) => ConfigStatus {
            loaded: false,
            available_models: Vec::new(),
            error_message: Some(err.message()),
        },
    }
}

} // verus!
