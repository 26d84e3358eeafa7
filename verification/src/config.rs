//! The configuration: which command template applies to a port, and the
//! command it renders to.

use crate::text::{decimal, decimal_text};
use vstd::hash_map::StringHashMap;
use vstd::prelude::*;
use vstd::string::*;

verus! {

/// The template used where the configuration names none: it opens the URL of
/// the port on the local host.
pub const DEFAULT_TEMPLATE: &'static str = "open http://localhost:{{exposed_port}}";

/// The name under which a template finds the published port.
pub const PLACEHOLDER: &'static str = "exposed_port";

/// What is shown as the command of a template whose partials may lead back
/// into themselves.
pub const PARTIAL_FAILURE: &'static str =
    "Inline partials and partial blocks are not supported.";

/// What the configuration says of one service label.
pub struct ServiceConfig {
    command: Option<String>,
    ports: StringHashMap<Option<String>>,
}

/// The configuration of a run: an optional default template, and the
/// services that have settings of their own.
pub struct Config {
    command: Option<String>,
    services: StringHashMap<ServiceConfig>,
}

/// A [`ServiceConfig`] as plain values: the service's default template, and
/// for each port named, by the decimal text it is named with, the template
/// set for it, if one is.
pub struct ServiceConfigView {
    pub command: Option<Seq<char>>,
    pub ports: Map<Seq<char>, Option<Seq<char>>>,
}

/// A [`Config`] as plain values: the default template, and the settings of
/// each service label that has any.
pub struct ConfigView {
    pub command: Option<Seq<char>>,
    pub services: Map<Seq<char>, ServiceConfigView>,
}

/// The name under which the configuration holds the settings of a port: the
/// port number in decimal.
pub open spec fn port_key(port: u16) -> Seq<char> {
    decimal(port as nat)
}

/// The template holds the opening of an expression, two opening braces in a
/// row.
pub open spec fn has_expression(template: Seq<char>) -> bool {
    exists|i: int|
        0 <= i && i + 1 < template.len() && #[trigger] template[i] == '{' && template[i + 1] == '{'
}

/// A character that may stand between the two opening braces of an
/// expression and the sign that tells its kind.
pub open spec fn skippable(c: char) -> bool {
    c == ' ' || c == '\t' || c == '\n' || c == '\r' || c == '~' || c == '#'
}

/// The place `i` of the template comes after two opening braces in a row
/// with nothing but skippable characters in between.
pub open spec fn opened(template: Seq<char>, i: int) -> bool
    decreases i,
{
    2 <= i <= template.len() && ((template[i - 1] == '{' && template[i - 2] == '{') || (opened(
        template,
        i - 1,
    ) && skippable(template[i - 1])))
}

/// The place `i` of the template comes after two opening braces in a row
/// and a hash sign, with nothing but skippable characters besides.
pub open spec fn block_opened(template: Seq<char>, i: int) -> bool
    decreases i,
{
    3 <= i <= template.len() && ((opened(template, i - 1) && template[i - 1] == '#') || (
    block_opened(template, i - 1) && skippable(template[i - 1])))
}

/// The template asks for a partial, another template to be put in its
/// place: somewhere in it an expression is opened and its first sign is `>`.
pub open spec fn has_partial(template: Seq<char>) -> bool {
    exists|i: int| 0 <= i < template.len() && #[trigger] opened(template, i) && template[i] == '>'
}

/// The template asks for a partial and gives a block to stand in for it:
/// somewhere in it a block is opened and its first sign is `>`.
pub open spec fn has_partial_block(template: Seq<char>) -> bool {
    exists|i: int|
        0 <= i < template.len() && #[trigger] block_opened(template, i) && template[i] == '>'
}

/// The template holds a decorator, the one way to define a partial inside a
/// template: somewhere in it an expression is opened and its first sign is
/// `*`.
pub open spec fn has_decorator(template: Seq<char>) -> bool {
    exists|i: int| 0 <= i < template.len() && #[trigger] opened(template, i) && template[i] == '*'
}

/// The template may ask for a partial that leads back into itself. A
/// partial can only do so if the template defines it, with a decorator, or
/// if it is a block that the template hands to a partial.
pub open spec fn may_recurse(template: Seq<char>) -> bool {
    has_partial_block(template) || (has_partial(template) && has_decorator(template))
}

/// Two opening braces in a row, at the places `i` and `i + 1`.
pub open spec fn opens_at(template: Seq<char>, i: int) -> bool {
    0 <= i && i + 1 < template.len() && template[i] == '{' && template[i + 1] == '{'
}

/// Two closing braces in a row, at the places `i` and `i + 1`.
pub open spec fn closes_at(template: Seq<char>, i: int) -> bool {
    0 <= i && i + 1 < template.len() && template[i] == '}' && template[i + 1] == '}'
}

/// An equals sign at the place `i`.
pub open spec fn equals_at(template: Seq<char>, i: int) -> bool {
    0 <= i < template.len() && template[i] == '='
}

/// No expression of the template can hold two named arguments: nowhere do
/// two equals signs stand between two opening braces and two closing braces.
/// Of such a template the engine makes the same on every call.
pub open spec fn single_valued(template: Seq<char>) -> bool {
    forall|a: int, i: int, j: int, b: int|
        #![trigger opens_at(template, a), equals_at(template, i), equals_at(template, j), closes_at(template, b)]
        !(opens_at(template, a) && a + 1 < i && equals_at(template, i) && i < j && equals_at(
            template,
            j,
        ) && j < b && closes_at(template, b))
}

/// What `Handlebars::render_template` makes of a template that is
/// [`single_valued`], on a registry with nothing registered and with the
/// port as the value of the placeholder: the rendered text, or the
/// description of why the template cannot be rendered.
pub uninterp spec fn rendering(template: Seq<char>, placeholder: Seq<char>, exposed_port: u16) -> Result<
    Seq<char>,
    Seq<char>,
>;

/// The outcome of a rendering as plain values.
pub open spec fn outcome_view(outcome: Result<String, String>) -> Result<Seq<char>, Seq<char>> {
    match outcome {
        Ok(text) => Ok(text@),
        Err(failure) => Err(failure@),
    }
}

/// The outcome of a rendering that hands the template back as it stands.
pub open spec fn unchanged(template: Seq<char>) -> Result<Seq<char>, Seq<char>> {
    Ok(template)
}

/// The command shown for an entry: the rendered text, or in its place the
/// description of the failure.
pub open spec fn shown(outcome: Result<Seq<char>, Seq<char>>) -> Seq<char> {
    match outcome {
        Ok(text) => text,
        Err(failure) => failure,
    }
}

/// The command of the template is the same on every call: the template is
/// not handed to the engine, or the engine makes one thing of it.
pub open spec fn determined(template: Seq<char>) -> bool {
    may_recurse(template) || single_valued(template)
}

/// The command that a template gives for a port, where it is [`determined`].
/// A template that may lead back into itself is not handed to the template
/// engine, which would not come back from it; a fixed text stands in its
/// place. A template without an expression is its own command. Every other
/// template gives what the engine makes of it.
pub open spec fn rendered(template: Seq<char>, exposed_port: u16) -> Seq<char> {
    if may_recurse(template) {
        PARTIAL_FAILURE@
    } else if !has_expression(template) {
        template
    } else {
        shown(rendering(template, PLACEHOLDER@, exposed_port))
    }
}

/// `command` can be the command that the template gives for a port. Where
/// the template is [`determined`] there is one such command. Where it is
/// not, the engine may make different things of it from call to call, and
/// every text can be its command.
pub open spec fn renders_to(template: Seq<char>, exposed_port: u16, command: Seq<char>) -> bool {
    determined(template) ==> command == rendered(template, exposed_port)
}

impl ConfigView {
    /// The template set for exactly this service and port.
    pub open spec fn port_command(self, service: Seq<char>, port: u16) -> Option<Seq<char>> {
        if self.services.contains_key(service) && self.services[service].ports.contains_key(
            port_key(port),
        ) {
            self.services[service].ports[port_key(port)]
        } else {
            None
        }
    }

    /// The default template of this service.
    pub open spec fn service_command(self, service: Seq<char>) -> Option<Seq<char>> {
        if self.services.contains_key(service) {
            self.services[service].command
        } else {
            None
        }
    }

    /// The template the configuration names for this service and port: the
    /// one set for the port, else the service's default, else the default of
    /// the whole configuration.
    pub open spec fn command_template(self, service: Seq<char>, port: u16) -> Option<Seq<char>> {
        if self.port_command(service, port) is Some {
            self.port_command(service, port)
        } else if self.service_command(service) is Some {
            self.service_command(service)
        } else {
            self.command
        }
    }

    /// The template that applies to this service and port: the one the
    /// configuration names, else the built-in one.
    pub open spec fn template(self, service: Seq<char>, port: u16) -> Seq<char> {
        match self.command_template(service, port) {
            Some(template) => template,
            None => DEFAULT_TEMPLATE@,
        }
    }

    /// The command of this service and port, for the port it is published
    /// on, where the template that applies is [`determined`].
    pub open spec fn render(self, service: Seq<char>, port: u16, exposed_port: u16) -> Seq<char> {
        rendered(self.template(service, port), exposed_port)
    }

    /// `command` can be the command of this service and port, for the port
    /// it is published on.
    pub open spec fn renders(
        self,
        service: Seq<char>,
        port: u16,
        exposed_port: u16,
        command: Seq<char>,
    ) -> bool {
        renders_to(self.template(service, port), exposed_port, command)
    }
}

/// The order in which a template is resolved, the most specific setting
/// first: a template set for the port wins over everything else; without
/// one, the default of the service wins; without that, the default of the
/// configuration; and only where the configuration names none of the three
/// the built-in template applies.
pub proof fn lemma_resolution_precedence(config: ConfigView, service: Seq<char>, port: u16)
    ensures
        config.port_command(service, port) is Some ==> config.command_template(service, port)
            == config.port_command(service, port),
        config.port_command(service, port) is None && config.service_command(service) is Some
            ==> config.command_template(service, port) == config.service_command(service),
        config.port_command(service, port) is None && config.service_command(service) is None
            ==> config.command_template(service, port) == config.command,
        config.command_template(service, port) matches Some(template) ==> config.template(
            service,
            port,
        ) == template,
        config.command_template(service, port) is None ==> config.template(service, port)
            == DEFAULT_TEMPLATE@,
{
}

/// Rendering is pure where the template is [`determined`]: two commands
/// of one service and port, for one published port, are the same command.
pub proof fn lemma_render_deterministic(
    config: ConfigView,
    service: Seq<char>,
    port: u16,
    exposed_port: u16,
    first: Seq<char>,
    second: Seq<char>,
)
    requires
        determined(config.template(service, port)),
        config.renders(service, port, exposed_port, first),
        config.renders(service, port, exposed_port, second),
    ensures
        first == second,
{
}

/// A template without an expression is its own command, and the only one.
pub proof fn lemma_plain_template_unchanged(
    config: ConfigView,
    service: Seq<char>,
    port: u16,
    exposed_port: u16,
    command: Seq<char>,
)
    requires
        !has_expression(config.template(service, port)),
        config.renders(service, port, exposed_port, command),
    ensures
        command == config.template(service, port),
{
    lemma_expression_needed(config.template(service, port));
}

/// Only a template that holds an expression can lead back into itself or
/// hold two named arguments.
pub proof fn lemma_expression_needed(template: Seq<char>)
    ensures
        may_recurse(template) ==> has_expression(template),
        !has_expression(template) ==> single_valued(template),
{
    if has_partial(template) {
        let i = choose|i: int|
            0 <= i < template.len() && #[trigger] opened(template, i) && template[i] == '>';
        lemma_opened_is_expression(template, i);
    }
    if has_partial_block(template) {
        let i = choose|i: int|
            0 <= i < template.len() && #[trigger] block_opened(template, i) && template[i] == '>';
        lemma_block_opened_is_opened(template, i);
        lemma_opened_is_expression(template, i);
    }
    if !has_expression(template) {
        assert forall|a: int| !opens_at(template, a) by {
            if opens_at(template, a) {
                assert(template[a] == '{' && template[a + 1] == '{');
            }
        }
    }
}

proof fn lemma_opened_is_expression(template: Seq<char>, i: int)
    requires
        opened(template, i),
    ensures
        has_expression(template),
    decreases i,
{
    if template[i - 1] == '{' && template[i - 2] == '{' {
        assert(template[i - 2] == '{' && template[i - 2 + 1] == '{');
    } else {
        lemma_opened_is_expression(template, i - 1);
    }
}

proof fn lemma_block_opened_is_opened(template: Seq<char>, i: int)
    requires
        block_opened(template, i),
    ensures
        opened(template, i),
    decreases i,
{
    if !(opened(template, i - 1) && template[i - 1] == '#') {
        lemma_block_opened_is_opened(template, i - 1);
    }
}

impl View for ServiceConfig {
    type V = ServiceConfigView;

    closed spec fn view(&self) -> ServiceConfigView {
        ServiceConfigView {
            command: self.command.deep_view(),
            ports: self.ports@.map_values(|command: Option<String>| command.deep_view()),
        }
    }
}

impl View for Config {
    type V = ConfigView;

    closed spec fn view(&self) -> ConfigView {
        ConfigView {
            command: self.command.deep_view(),
            services: self.services@.map_values(|service: ServiceConfig| service@),
        }
    }
}

impl ServiceConfig {
    /// The settings of a service with this default template and no port
    /// named.
    pub fn new(command: Option<String>) -> (service: Self)
        ensures
            service@ == (ServiceConfigView { command: command.deep_view(), ports: Map::empty() }),
    {
        let service = ServiceConfig { command, ports: StringHashMap::new() };
        assert(service@.ports =~= Map::empty());
        service
    }

    /// Names the port `key`, with the template set for it, if one is. What
    /// was held under that name before is replaced.
    pub fn insert_port(&mut self, key: String, command: Option<String>)
        ensures
            final(self)@ == (ServiceConfigView {
                command: old(self)@.command,
                ports: old(self)@.ports.insert(key@, command.deep_view()),
            }),
    {
        self.ports.insert(key, command);
        assert(self@.ports =~= old(self)@.ports.insert(key@, command.deep_view()));
    }
}

impl Default for Config {
    /// The configuration that names no template.
    fn default() -> (config: Self)
        ensures
            config@ == (ConfigView { command: None, services: Map::empty() }),
    {
        Config::new(None)
    }
}

impl Config {
    /// The configuration with this default template and no service named.
    pub fn new(command: Option<String>) -> (config: Self)
        ensures
            config@ == (ConfigView { command: command.deep_view(), services: Map::empty() }),
    {
        let config = Config { command, services: StringHashMap::new() };
        assert(config@.services =~= Map::empty());
        config
    }

    /// Names the service `label`, with its settings. What was held under
    /// that label before is replaced.
    pub fn insert_service(&mut self, label: String, service: ServiceConfig)
        ensures
            final(self)@ == (ConfigView {
                command: old(self)@.command,
                services: old(self)@.services.insert(label@, service@),
            }),
    {
        self.services.insert(label, service);
        assert(self@.services =~= old(self)@.services.insert(label@, service@));
    }

    /// Looks for a template set for exactly this service and port.
    fn port_command(&self, service_name: &str, internal_port: u16) -> (found: Option<&str>)
        ensures
            found.deep_view() == self@.port_command(service_name@, internal_port),
    {
        match self.services.get(service_name) {
            Some(service) => {
                let key = decimal_text(internal_port as u64);
                match service.ports.get(key.as_str()) {
                    Some(Some(command)) => Some(command.as_str()),
                    _ => None,
                }
            },
            None => None,
        }
    }

    /// Looks for the default template of this service.
    fn service_command(&self, service_name: &str) -> (found: Option<&str>)
        ensures
            found.deep_view() == self@.service_command(service_name@),
    {
        match self.services.get(service_name) {
            Some(service) => match &service.command {
                Some(command) => Some(command.as_str()),
                None => None,
            },
            None => None,
        }
    }

    /// Looks for the default template of the whole configuration.
    fn default_command(&self) -> (found: Option<&str>)
        ensures
            found.deep_view() == self@.command,
    {
        match &self.command {
            Some(command) => Some(command.as_str()),
            None => None,
        }
    }

    /// The template the configuration names for this service and port, the
    /// most specific one first: the one set for the port, else the default
    /// of the service, else the default of the whole configuration, else
    /// none.
    pub fn command_template(&self, service_name: &str, internal_port: u16) -> (template: Option<
        &str,
    >)
        ensures
            template.deep_view() == self@.command_template(service_name@, internal_port),
    {
        if let Some(command) = self.port_command(service_name, internal_port) {
            return Some(command);
        }
        if let Some(command) = self.service_command(service_name) {
            return Some(command);
        }
        self.default_command()
    }

    /// The command of a port: the template that applies to the service and
    /// its internal port, rendered for the port it is published on. Where
    /// the template cannot be rendered the description of the failure stands
    /// in the command's place. A template without an expression is its own
    /// command. Of a template that is not [`determined`] nothing is said
    /// but that [`command_text`] made the command of what the engine gave.
    pub fn render(&self, service_name: &str, internal_port: u16, exposed_port: u16) -> (command:
        String)
        ensures
            self@.renders(service_name@, internal_port, exposed_port, command@),
            !has_expression(self@.template(service_name@, internal_port)) ==> command@
                == self@.template(service_name@, internal_port),
    {
        let template = match self.command_template(service_name, internal_port) {
            Some(template) => template,
            None => DEFAULT_TEMPLATE,
        };
        proof {
            lemma_expression_needed(template@);
        }
        if leads_back(template) {
            String::from_str(PARTIAL_FAILURE)
        } else {
            command_text(render_template(template, PLACEHOLDER, exposed_port))
        }
    }
}

/// Tells whether the template may ask for a partial that leads back into
/// itself.
pub fn leads_back(template: &str) -> (found: bool)
    ensures
        found == may_recurse(template@),
{
    let length: usize = template.unicode_len();
    let mut i: usize = 0;
    let mut opened: bool = false;
    let mut block_opened: bool = false;
    let mut after_brace: bool = false;
    let mut partial: bool = false;
    let mut partial_block: bool = false;
    let mut decorator: bool = false;
    while i < length
        invariant
            i <= length,
            length == template@.len(),
            opened == self::opened(template@, i as int),
            block_opened == self::block_opened(template@, i as int),
            after_brace == (i > 0 && template@[i - 1] == '{'),
            partial == (exists|k: int|
                0 <= k < i && #[trigger] self::opened(template@, k) && template@[k] == '>'),
            partial_block == (exists|k: int|
                0 <= k < i && #[trigger] self::block_opened(template@, k) && template@[k] == '>'),
            decorator == (exists|k: int|
                0 <= k < i && #[trigger] self::opened(template@, k) && template@[k] == '*'),
        decreases length - i,
    {
        let c = template.get_char(i);
        if opened && c == '>' {
            partial = true;
        }
        if block_opened && c == '>' {
            partial_block = true;
        }
        if opened && c == '*' {
            decorator = true;
        }
        let skip = c == ' ' || c == '\t' || c == '\n' || c == '\r' || c == '~' || c == '#';
        block_opened = (opened && c == '#') || (block_opened && skip);
        opened = (after_brace && c == '{') || (opened && skip);
        after_brace = c == '{';
        i = i + 1;
    }
    partial_block || (partial && decorator)
}

/// Tells whether no expression of the template can hold two named
/// arguments.
pub fn is_single_valued(template: &str) -> (single: bool)
    ensures
        single == single_valued(template@),
{
    let length: usize = template.unicode_len();
    let mut first_open: usize = length;
    let mut last_close: usize = 0;
    let mut closed: bool = false;
    let mut i: usize = 1;
    while i < length
        invariant
            1 <= i,
            length == template@.len(),
            first_open <= length,
            first_open < length ==> opens_at(template@, first_open as int) && first_open + 1 < i,
            forall|a: int| 0 <= a < first_open && a + 1 < i ==> !opens_at(template@, a),
            closed ==> closes_at(template@, last_close as int) && last_close + 1 < i,
            forall|b: int|
                (closed ==> last_close < b) && 0 <= b && b + 1 < i ==> !closes_at(template@, b),
        decreases length - i,
    {
        let before = template.get_char(i - 1);
        let c = template.get_char(i);
        if before == '{' && c == '{' && first_open == length {
            first_open = i - 1;
        }
        if before == '}' && c == '}' {
            last_close = i - 1;
            closed = true;
        }
        i = i + 1;
    }
    if first_open == length || !closed || last_close <= first_open + 2 {
        return true;
    }
    let mut seen: bool = false;
    let mut first_sign: usize = 0;
    let mut k: usize = first_open + 2;
    while k < last_close
        invariant
            first_open + 2 <= k <= last_close,
            last_close < length,
            length == template@.len(),
            seen ==> first_open + 1 < first_sign < k && equals_at(template@, first_sign as int),
            forall|e: int|
                first_open + 1 < e < k && equals_at(template@, e) ==> seen && e == first_sign,
            opens_at(template@, first_open as int),
            closes_at(template@, last_close as int),
        decreases last_close - k,
    {
        let c = template.get_char(k);
        if c == '=' {
            if seen {
                assert(opens_at(template@, first_open as int) && equals_at(
                    template@,
                    first_sign as int,
                ) && equals_at(template@, k as int) && closes_at(template@, last_close as int));
                return false;
            }
            seen = true;
            first_sign = k;
        }
        k = k + 1;
    }
    true
}

/// The command shown for an entry, given what the template engine made of
/// its template: the rendered text, or in its place the description of the
/// failure.
pub fn command_text(outcome: Result<String, String>) -> (command: String)
    ensures
        command@ == shown(outcome_view(outcome)),
{
    match outcome {
        Ok(text) => text,
        Err(failure) => failure,
    }
}

/// Renders a template with `Handlebars::render_template`, on a registry
/// fresh from `Handlebars::new` and with an object as data that holds the
/// port under the name of the placeholder; a failure is handed back as the
/// text that `RenderError` displays.
///
/// The engine keeps the named arguments of an expression in a hash map and
/// gives up at the first of them that fails, in the order in which the map
/// is walked: where an expression holds two of them, which failure is told
/// can change from call to call. A named argument is written with an equals
/// sign inside its expression, so the outcome is claimed to be one, a
/// function of the template, the placeholder and the port, for the
/// templates that are [`single_valued`], and for no other.
///
/// The grammar of templates takes everything up to the first two opening
/// braces in a row as raw text, which is rendered as it stands: so a
/// template that holds no such pair renders to itself.
///
/// Rendering calls itself only to expand a partial, which the grammar knows
/// by the sign `>` that follows the opening braces, after white space, `~`
/// and `#` at most. A partial is found only if a decorator of the template
/// defined it, or if it is the block handed to a partial; a partial that is
/// not found expands to nothing. A partial that is found and asks for itself
/// is expanded without end: the templates that [`may_recurse`] are left out.
#[verifier::external_body]
fn render_template(template: &str, placeholder: &str, exposed_port: u16) -> (outcome: Result<
    String,
    String,
>)
    requires
        !may_recurse(template@),
    ensures
        single_valued(template@) ==> outcome_view(outcome) == rendering(
            template@,
            placeholder@,
            exposed_port,
        ),
        !has_expression(template@) ==> outcome_view(outcome) == unchanged(template@),
{
    let mut data = serde_json::Map::new();
    data.insert(placeholder.to_string(), serde_json::Value::from(exposed_port));
    handlebars::Handlebars::new().render_template(
        template,
        &serde_json::Value::Object(data),
    ).map_err(|e| e.to_string())
}

} // verus!
