//! The `init` command: what is asked of the user, what is refused, and what
//! is created for each kind of project.
//!
//! The command is a conversation. A [`Session`] holds what is settled so
//! far, [`Session::next`] says what is to be done next, and
//! [`Session::advance`] takes in the answer. Nothing is created before the
//! session says so.

use crate::network::{known_profile, optimism_profile, profile_or_base, NetworkProfile};
use crate::template::{expand, lemma_entries_hold_no_token, pairs, settled, walk_entries,
    Artifact, ArtifactView, Expansion, Substitution, TemplateEntry};
use crate::text::{keeps_clear_of, lemma_sealed_value_keeps_clear, occurs, same_text};
use vstd::prelude::*;
use vstd::string::StringExecFns;

verus! {

/// A network that a project can be made for.
#[derive(Debug, Clone, Copy, PartialEq, Eq, Structural)]
pub enum Network {
    Base,
    Optimism,
}

/// A template that a project can be made from.
#[derive(Debug, Clone, Copy, PartialEq, Eq, Structural)]
pub enum Template {
    Javascript,
    React,
}

/// The files a project is made of.
#[derive(Debug, Clone, Copy, PartialEq, Eq, Structural)]
pub enum Flavor {
    /// Two files written from scratch.
    Javascript,
    /// The React template tree.
    React,
    /// The React template tree with account abstraction.
    AccountAbstraction,
}

/// What the user is told to do once the project is there.
#[derive(Debug, Clone, Copy, PartialEq, Eq, Structural)]
pub enum NextSteps {
    AccountAbstraction,
    React,
    Javascript,
}

/// Why no project is created.
#[derive(Debug, Clone, Copy, PartialEq, Eq, Structural)]
pub enum InitError {
    /// Account abstraction was asked for on a network other than Base.
    UnsupportedNetwork,
    /// The directory of the project is there already.
    DirectoryExists,
}

/// What is to be done next in a session.
#[derive(Debug, Clone, Copy, PartialEq, Eq, Structural)]
pub enum Action {
    /// Ask for the name of the project.
    AskName,
    /// Let the user pick a network.
    AskNetwork,
    /// Let the user pick a template.
    AskTemplate,
    /// Announce the project and look whether its directory exists.
    CheckDestination,
    /// Create the directory and, in it, the files of the flavor.
    Create { flavor: Flavor },
    /// Stop with an error. Nothing was created.
    Fail { error: InitError },
}

/// An answer to an action.
#[derive(Debug, Clone, PartialEq, Eq)]
pub enum Event {
    /// The name that the user entered.
    Name { name: String },
    /// The network that the user picked.
    Network { network: Network },
    /// The template that the user picked.
    Template { template: Template },
    /// Whether the directory of the project exists.
    Destination { exists: bool },
}

/// What is settled of a project so far.
#[derive(Debug, Clone, PartialEq, Eq)]
pub struct Session {
    pub name: Option<String>,
    pub network: Option<Network>,
    pub template: Option<Template>,
    pub account_abstraction: bool,
    /// Whether the directory of the project exists, once that was looked up.
    pub destination_exists: Option<bool>,
}

/// The network meant by an identifier given on the command line: one that is
/// not known means Base.
pub open spec fn network_named(id: Seq<char>) -> Network {
    if id == "optimism"@ {
        Network::Optimism
    } else {
        Network::Base
    }
}

/// The template meant by an identifier given on the command line: one that
/// is not known means the JavaScript template.
pub open spec fn template_named(id: Seq<char>) -> Template {
    if id == "react"@ {
        Template::React
    } else {
        Template::Javascript
    }
}

/// The flavor of a project. Account abstraction comes with the React
/// template only.
pub open spec fn flavor_of(template: Template, account_abstraction: bool) -> Flavor {
    match template {
        Template::React => if account_abstraction {
            Flavor::AccountAbstraction
        } else {
            Flavor::React
        },
        Template::Javascript => Flavor::Javascript,
    }
}

/// What the user is told at the end. Where account abstraction was asked
/// for, its steps are shown whatever the template.
pub open spec fn next_steps_of(template: Template, account_abstraction: bool) -> NextSteps {
    if account_abstraction {
        NextSteps::AccountAbstraction
    } else if template == Template::React {
        NextSteps::React
    } else {
        NextSteps::Javascript
    }
}

/// What a session asks for next. The name comes first, then the network;
/// account abstraction off Base is refused as soon as the network is known;
/// then comes the template, then the look at the directory, which must not
/// exist.
pub open spec fn next_action(session: Session) -> Action {
    if session.name is None {
        Action::AskName
    } else if session.network is None {
        Action::AskNetwork
    } else if session.account_abstraction && session.network != Some(Network::Base) {
        Action::Fail { error: InitError::UnsupportedNetwork }
    } else if session.template is None {
        Action::AskTemplate
    } else if session.destination_exists is None {
        Action::CheckDestination
    } else if session.destination_exists == Some(true) {
        Action::Fail { error: InitError::DirectoryExists }
    } else {
        Action::Create { flavor: flavor_of(session.template->0, session.account_abstraction) }
    }
}

/// The session after an answer came in.
pub open spec fn advanced(session: Session, event: Event) -> Session {
    match event {
        Event::Name { name } => Session { name: Some(name), ..session },
        Event::Network { network } => Session { network: Some(network), ..session },
        Event::Template { template } => Session { template: Some(template), ..session },
        Event::Destination { exists } => Session { destination_exists: Some(exists), ..session },
    }
}

/// The text shown for an error, for a project of the given name.
pub open spec fn message_of(error: InitError, name: Seq<char>) -> Seq<char> {
    match error {
        InitError::UnsupportedNetwork => {
            "Account abstraction is currently only supported on Base network.\\n\\\n             Use: l2 init "@
                + name + " --network base --account-abstraction"@
        },
        InitError::DirectoryExists => "Directory already exists"@,
    }
}

impl Network {
    /// The identifier of the network.
    pub open spec fn id_spec(self) -> Seq<char> {
        match self {
            Network::Base => "base"@,
            Network::Optimism => "optimism"@,
        }
    }

    /// The identifier of the network.
    pub fn id(&self) -> (id: &'static str)
        ensures
            id@ == self.id_spec(),
    {
        match self {
            Network::Base => "base",
            Network::Optimism => "optimism",
        }
    }

    /// The network at a place in the list that the user picks from.
    pub fn from_index(index: usize) -> (r: Option<Network>)
        ensures
            r == (if index == 0 {
                Some(Network::Base)
            } else if index == 1 {
                Some(Network::Optimism)
            } else {
                None
            }),
    {
        if index == 0 {
            Some(Network::Base)
        } else if index == 1 {
            Some(Network::Optimism)
        } else {
            None
        }
    }

    /// The network meant by an identifier: one that is not known means Base.
    pub fn named(id: &str) -> (network: Network)
        ensures
            network == network_named(id@),
    {
        if same_text(id, "optimism") {
            Network::Optimism
        } else {
            Network::Base
        }
    }
}

impl Template {
    /// The identifier of the template.
    pub open spec fn id_spec(self) -> Seq<char> {
        match self {
            Template::Javascript => "javascript"@,
            Template::React => "react"@,
        }
    }

    /// The identifier of the template.
    pub fn id(&self) -> (id: &'static str)
        ensures
            id@ == self.id_spec(),
    {
        match self {
            Template::Javascript => "javascript",
            Template::React => "react",
        }
    }

    /// The template at a place in the list that the user picks from.
    pub fn from_index(index: usize) -> (r: Option<Template>)
        ensures
            r == (if index == 0 {
                Some(Template::Javascript)
            } else if index == 1 {
                Some(Template::React)
            } else {
                None
            }),
    {
        if index == 0 {
            Some(Template::Javascript)
        } else if index == 1 {
            Some(Template::React)
        } else {
            None
        }
    }

    /// The template meant by an identifier: one that is not known means the
    /// JavaScript template.
    pub fn named(id: &str) -> (template: Template)
        ensures
            template == template_named(id@),
    {
        if same_text(id, "react") {
            Template::React
        } else {
            Template::Javascript
        }
    }
}

impl InitError {
    /// The text shown for this error, for a project of the given name.
    pub fn message(&self, name: &str) -> (s: String)
        ensures
            s@ == message_of(*self, name@),
    {
        match self {
            InitError::UnsupportedNetwork => {
                "Account abstraction is currently only supported on Base network.\\n\\\n             Use: l2 init ".to_owned().concat(
                    name,
                ).concat(" --network base --account-abstraction")
            },
            InitError::DirectoryExists => "Directory already exists".to_owned(),
        }
    }
}

/// Starts a session from what was given on the command line. What was not
/// given is asked for later; a network or template that is not known is
/// taken as the first of its list.
pub fn run(
    name: Option<String>,
    network: Option<String>,
    template: Option<String>,
    _typescript: bool,
    _tailwind: bool,
    account_abstraction: bool,
) -> (session: Session)
    ensures
        session.name == name,
        session.network == (match network {
            Some(id) => Some(network_named(id@)),
            None => None,
        }),
        session.template == (match template {
            Some(id) => Some(template_named(id@)),
            None => None,
        }),
        session.account_abstraction == account_abstraction,
        session.destination_exists is None,
{
    let network = match network {
        Some(id) => Some(Network::named(id.as_str())),
        None => None,
    };
    let template = match template {
        Some(id) => Some(Template::named(id.as_str())),
        None => None,
    };
    Session { name, network, template, account_abstraction, destination_exists: None }
}

impl Session {
    /// What is to be done next. A project is created only when its directory
    /// was looked up and does not exist, and never with account abstraction
    /// on a network other than Base; in that case the directory is not even
    /// looked up.
    pub fn next(&self) -> (action: Action)
        ensures
            action == next_action(*self),
            action is Create ==> self.destination_exists == Some(false),
            action is Create || action is CheckDestination ==> !(self.account_abstraction
                && self.network == Some(Network::Optimism)),
    {
        if self.name.is_none() {
            return Action::AskName;
        }
        let network = match self.network {
            None => {
                return Action::AskNetwork;
            },
            Some(network) => network,
        };
        if self.account_abstraction && network != Network::Base {
            return Action::Fail { error: InitError::UnsupportedNetwork };
        }
        let template = match self.template {
            None => {
                return Action::AskTemplate;
            },
            Some(template) => template,
        };
        match self.destination_exists {
            None => Action::CheckDestination,
            Some(true) => Action::Fail { error: InitError::DirectoryExists },
            Some(false) => Action::Create {
                flavor: Session::flavor(template, self.account_abstraction),
            },
        }
    }

    /// Takes in the answer to an action.
    pub fn advance(self, event: Event) -> (session: Session)
        ensures
            session == advanced(self, event),
    {
        let mut session = self;
        match event {
            Event::Name { name } => {
                session.name = Some(name);
            },
            Event::Network { network } => {
                session.network = Some(network);
            },
            Event::Template { template } => {
                session.template = Some(template);
            },
            Event::Destination { exists } => {
                session.destination_exists = Some(exists);
            },
        }
        session
    }

    /// The flavor of a project made from `template`.
    pub fn flavor(template: Template, account_abstraction: bool) -> (flavor: Flavor)
        ensures
            flavor == flavor_of(template, account_abstraction),
    {
        match template {
            Template::React => if account_abstraction {
                Flavor::AccountAbstraction
            } else {
                Flavor::React
            },
            Template::Javascript => Flavor::Javascript,
        }
    }

    /// What the user is told to do once the project is there.
    pub fn next_steps(template: Template, account_abstraction: bool) -> (steps: NextSteps)
        ensures
            steps == next_steps_of(template, account_abstraction),
    {
        if account_abstraction {
            NextSteps::AccountAbstraction
        } else if template == Template::React {
            NextSteps::React
        } else {
            NextSteps::Javascript
        }
    }
}

/// How many things a session has yet to learn.
pub open spec fn open_questions(session: Session) -> nat {
    let name: nat = if session.name is None {
        1
    } else {
        0
    };
    let network: nat = if session.network is None {
        1
    } else {
        0
    };
    let template: nat = if session.template is None {
        1
    } else {
        0
    };
    let destination: nat = if session.destination_exists is None {
        1
    } else {
        0
    };
    name + network + template + destination
}

/// Whether an event is the answer to an action.
pub open spec fn answers(event: Event, action: Action) -> bool {
    match action {
        Action::AskName => event is Name,
        Action::AskNetwork => event is Network,
        Action::AskTemplate => event is Template,
        Action::CheckDestination => event is Destination,
        Action::Create { .. } => false,
        Action::Fail { .. } => false,
    }
}

/// Every answer settles one thing, and a session that has nothing left to
/// learn asks no more: it creates the project or fails. So a session comes
/// to its end after four answers at most.
pub proof fn lemma_answers_settle(session: Session, event: Event)
    ensures
        answers(event, next_action(session)) ==> open_questions(advanced(session, event)) + 1
            == open_questions(session),
        open_questions(session) == 0 ==> next_action(session) is Create || next_action(session)
            is Fail,
{
}

/// A session whose directory was found to exist creates nothing: once all
/// else is settled it fails.
pub proof fn lemma_existing_destination_is_refused(session: Session)
    requires
        session.destination_exists == Some(true),
    ensures
        !(next_action(session) is Create),
        session.name is Some && session.network is Some && session.template is Some
            ==> next_action(session) is Fail,
{
}

/// A session with account abstraction on a network other than Base neither
/// looks at the directory nor creates anything: it asks for the name if that
/// is missing, and then fails.
pub proof fn lemma_account_abstraction_needs_base(session: Session)
    requires
        session.account_abstraction,
        session.network is Some,
        session.network != Some(Network::Base),
    ensures
        next_action(session) == (if session.name is None {
            Action::AskName
        } else {
            Action::Fail { error: InitError::UnsupportedNetwork }
        }),
{
}

/// The substitutions of the React template, in the order in which they are
/// made.
pub open spec fn react_table(name: Seq<char>, profile: NetworkProfile) -> Seq<
    (Seq<char>, Seq<char>),
> {
    seq![
        ("{{project_name}}"@, name),
        ("{{network_import}}"@, profile.import_name@),
        ("{{network_name}}"@, profile.name@),
        ("{{network_display}}"@, profile.display@),
        ("{{chain_id}}"@, profile.chain_id@),
        ("{{rpc_url}}"@, profile.rpc_url@),
        ("{{explorer_url}}"@, profile.explorer_url@),
        ("{{docs_url}}"@, profile.docs_url@),
    ]
}

/// The substitutions of the account-abstraction template, in the order in
/// which they are made. This template is for the Base Sepolia test network.
pub open spec fn aa_table(name: Seq<char>) -> Seq<(Seq<char>, Seq<char>)> {
    seq![
        ("{{project_name}}"@, name),
        ("{{ project_name }}"@, name),
        ("{{network_display}}"@, "Base Sepolia"@),
        ("{{ network_display }}"@, "Base Sepolia"@),
    ]
}

/// The chain identifier, RPC endpoint and block explorer written into the
/// files of the JavaScript flavor. A network that is not known is taken for
/// a chain on this machine.
pub open spec fn javascript_endpoints(network: Seq<char>) -> (Seq<char>, Seq<char>, Seq<char>) {
    match known_profile(network) {
        Some(profile) => (profile.chain_id@, profile.rpc_url@, profile.explorer_url@),
        None => ("1"@, "http://localhost:8545"@, ""@),
    }
}

/// The page of the JavaScript flavor. Where a line of the page ends, the text
/// holds a backslash and the letter `n`.
pub open spec fn index_html(name: Seq<char>, network: Seq<char>) -> Seq<char> {
    "<!DOCTYPE html>\\n<html>\\n<head>\\n<title>"@ + name
        + "</title>\\n</head>\\n<body>\\\n        \\n<h1>"@ + name + "</h1>\\n<p>Network: "@
        + network + "</p>\\n<p>Chain ID: "@ + javascript_endpoints(network).0
        + "</p>\\n</body>\\n</html>"@
}

/// The README of the JavaScript flavor. Where a line ends, the text holds a
/// backslash and the letter `n`.
pub open spec fn readme(name: Seq<char>, network: Seq<char>) -> Seq<char> {
    "# "@ + name + "\\n\\nL2 app on "@ + network + "\\n\\nChain: "@ + javascript_endpoints(
        network,
    ).0 + "\\nRPC: "@ + javascript_endpoints(network).1 + "\\nExplorer: "@
        + javascript_endpoints(network).2 + "\\n"@
}

/// The files of the JavaScript flavor.
pub open spec fn javascript_files(name: Seq<char>, network: Seq<char>) -> Seq<ArtifactView> {
    seq![
        ArtifactView::File { path: "index.html"@, contents: index_html(name, network) },
        ArtifactView::File { path: "README.md"@, contents: readme(name, network) },
    ]
}

fn substitution(token: &str, value: &str) -> (s: Substitution)
    ensures
        s@ == (token@, value@),
{
    Substitution { token: token.to_owned(), value: value.to_owned() }
}

/// The substitution table of the React template for a project and a network.
pub fn react_substitutions(name: &str, profile: &NetworkProfile) -> (table: Vec<Substitution>)
    ensures
        pairs(table@) == react_table(name@, *profile),
{
    let mut table: Vec<Substitution> = Vec::new();
    table.push(substitution("{{project_name}}", name));
    table.push(substitution("{{network_import}}", profile.import_name));
    table.push(substitution("{{network_name}}", profile.name));
    table.push(substitution("{{network_display}}", profile.display));
    table.push(substitution("{{chain_id}}", profile.chain_id));
    table.push(substitution("{{rpc_url}}", profile.rpc_url));
    table.push(substitution("{{explorer_url}}", profile.explorer_url));
    table.push(substitution("{{docs_url}}", profile.docs_url));
    proof {
        assert(pairs(table@) =~= react_table(name@, *profile));
    }
    table
}

/// The substitution table of the account-abstraction template for a project.
pub fn aa_substitutions(name: &str) -> (table: Vec<Substitution>)
    ensures
        pairs(table@) == aa_table(name@),
{
    let network_display = "Base Sepolia";
    let mut table: Vec<Substitution> = Vec::new();
    table.push(substitution("{{project_name}}", name));
    table.push(substitution("{{ project_name }}", name));
    table.push(substitution("{{network_display}}", network_display));
    table.push(substitution("{{ network_display }}", network_display));
    proof {
        assert(pairs(table@) =~= aa_table(name@));
    }
    table
}

/// Expands the account-abstraction template for a project. The network has
/// no part in it.
pub fn create_aa_template(tree: &Vec<TemplateEntry>, name: &str, _network: &str) -> (e: Expansion)
    ensures
        e.artifacts.deep_view() == walk_entries(tree@, aa_table(name@), tree@.len()).made,
        e.failure is Some <==> walk_entries(tree@, aa_table(name@), tree@.len()).broke_off,
{
    let table = aa_substitutions(name);
    expand(tree, &table)
}

/// Expands the React template for a project on a network. A network that is
/// not known is taken for Base.
pub fn create_react_template(tree: &Vec<TemplateEntry>, name: &str, network: &str) -> (e:
    Expansion)
    ensures
        e.artifacts.deep_view() == walk_entries(
            tree@,
            react_table(name@, profile_or_base(network@)),
            tree@.len(),
        ).made,
        e.failure is Some <==> walk_entries(
            tree@,
            react_table(name@, profile_or_base(network@)),
            tree@.len(),
        ).broke_off,
{
    let profile = NetworkProfile::lookup_or_base(network);
    let table = react_substitutions(name, &profile);
    expand(tree, &table)
}

/// The files of the JavaScript flavor for a project on a network: a page and
/// a README. A network that is not known is taken for a chain on this
/// machine.
pub fn create_javascript_template(name: &str, network: &str) -> (files: Vec<Artifact>)
    ensures
        files.deep_view() == javascript_files(name@, network@),
{
    let (chain, rpc, explorer) = match NetworkProfile::lookup(network) {
        Some(profile) => (profile.chain_id, profile.rpc_url, profile.explorer_url),
        None => ("1", "http://localhost:8545", ""),
    };
    let html = "<!DOCTYPE html>\\n<html>\\n<head>\\n<title>".to_owned().concat(name).concat(
        "</title>\\n</head>\\n<body>\\\n        \\n<h1>",
    ).concat(name).concat("</h1>\\n<p>Network: ").concat(network).concat(
        "</p>\\n<p>Chain ID: ",
    ).concat(chain).concat("</p>\\n</body>\\n</html>");
    let readme = "# ".to_owned().concat(name).concat("\\n\\nL2 app on ").concat(network).concat(
        "\\n\\nChain: ",
    ).concat(chain).concat("\\nRPC: ").concat(rpc).concat("\\nExplorer: ").concat(
        explorer,
    ).concat("\\n");
    let mut files: Vec<Artifact> = Vec::new();
    files.push(Artifact::File { path: "index.html".to_owned(), contents: html });
    files.push(Artifact::File { path: "README.md".to_owned(), contents: readme });
    proof {
        assert(files.deep_view() =~= javascript_files(name@, network@));
    }
    files
}

/// The table of the React template is settled for every network, given a
/// project name that keeps clear of its own placeholder.
pub proof fn lemma_react_table_settled(name: Seq<char>, network: Seq<char>)
    requires
        keeps_clear_of(name, "{{project_name}}"@),
    ensures
        settled(react_table(name, profile_or_base(network))),
{
    reveal_strlit("{{project_name}}");
    reveal_strlit("{{network_import}}");
    reveal_strlit("{{network_name}}");
    reveal_strlit("{{network_display}}");
    reveal_strlit("{{chain_id}}");
    reveal_strlit("{{rpc_url}}");
    reveal_strlit("{{explorer_url}}");
    reveal_strlit("{{docs_url}}");
    let table = react_table(name, profile_or_base(network));
    if profile_or_base(network) == optimism_profile() {
        reveal_strlit("optimism");
        reveal_strlit("Optimism");
        reveal_strlit("10");
        reveal_strlit("https://mainnet.optimism.io");
        reveal_strlit("https://optimistic.etherscan.io");
        reveal_strlit("https://docs.optimism.io");
        assert forall|i: int, j: int| 0 <= i <= j < table.len() implies keeps_clear_of(
            table[j].1,
            table[i].0,
        ) by {
            if j == 0 {
            } else if j <= 2 {
                // the `s` of `optimism`
                lemma_sealed_value_keeps_clear(table[j].1, table[i].0, 6);
            } else if j <= 4 {
                lemma_sealed_value_keeps_clear(table[j].1, table[i].0, 0);
            } else {
                // the colon of `https:`
                lemma_sealed_value_keeps_clear(table[j].1, table[i].0, 5);
            }
        }
    } else {
        reveal_strlit("base");
        reveal_strlit("Base");
        reveal_strlit("8453");
        reveal_strlit("https://mainnet.base.org");
        reveal_strlit("https://basescan.org");
        reveal_strlit("https://docs.base.org");
        assert forall|i: int, j: int| 0 <= i <= j < table.len() implies keeps_clear_of(
            table[j].1,
            table[i].0,
        ) by {
            if j == 0 {
            } else if j <= 4 {
                lemma_sealed_value_keeps_clear(table[j].1, table[i].0, 0);
            } else {
                // the colon of `https:`
                lemma_sealed_value_keeps_clear(table[j].1, table[i].0, 5);
            }
        }
    }
}

/// The table of the account-abstraction template is settled, given a project
/// name that keeps clear of both forms of its placeholder.
pub proof fn lemma_aa_table_settled(name: Seq<char>)
    requires
        keeps_clear_of(name, "{{project_name}}"@),
        keeps_clear_of(name, "{{ project_name }}"@),
    ensures
        settled(aa_table(name)),
{
    reveal_strlit("{{project_name}}");
    reveal_strlit("{{ project_name }}");
    reveal_strlit("{{network_display}}");
    reveal_strlit("{{ network_display }}");
    reveal_strlit("Base Sepolia");
    let table = aa_table(name);
    assert forall|i: int, j: int| 0 <= i <= j < table.len() implies keeps_clear_of(
        table[j].1,
        table[i].0,
    ) by {
        if j >= 2 {
            lemma_sealed_value_keeps_clear(table[j].1, table[i].0, 0);
        }
    }
}

/// No file made from the React template holds a placeholder of that
/// template, whatever the template's files hold and whatever the network,
/// given a project name that keeps clear of its own placeholder.
pub proof fn lemma_react_files_hold_no_placeholder(
    tree: Seq<TemplateEntry>,
    name: Seq<char>,
    network: Seq<char>,
    k: int,
    i: int,
)
    requires
        keeps_clear_of(name, "{{project_name}}"@),
        0 <= i < react_table(name, profile_or_base(network)).len(),
        0 <= k < walk_entries(
            tree,
            react_table(name, profile_or_base(network)),
            tree.len(),
        ).made.len(),
        walk_entries(tree, react_table(name, profile_or_base(network)), tree.len()).made[k]
            is File,
    ensures
        !occurs(
            walk_entries(
                tree,
                react_table(name, profile_or_base(network)),
                tree.len(),
            ).made[k]->contents,
            react_table(name, profile_or_base(network))[i].0,
        ),
{
    lemma_react_table_settled(name, network);
    lemma_entries_hold_no_token(
        tree,
        react_table(name, profile_or_base(network)),
        tree.len(),
        k,
        i,
    );
}

/// No file made from the account-abstraction template holds a placeholder of
/// that template, whatever the template's files hold, given a project name
/// that keeps clear of both forms of its placeholder.
pub proof fn lemma_aa_files_hold_no_placeholder(
    tree: Seq<TemplateEntry>,
    name: Seq<char>,
    k: int,
    i: int,
)
    requires
        keeps_clear_of(name, "{{project_name}}"@),
        keeps_clear_of(name, "{{ project_name }}"@),
        0 <= i < aa_table(name).len(),
        0 <= k < walk_entries(tree, aa_table(name), tree.len()).made.len(),
        walk_entries(tree, aa_table(name), tree.len()).made[k] is File,
    ensures
        !occurs(
            walk_entries(tree, aa_table(name), tree.len()).made[k]->contents,
            aa_table(name)[i].0,
        ),
{
    lemma_aa_table_settled(name);
    lemma_entries_hold_no_token(tree, aa_table(name), tree.len(), k, i);
}

} // verus!
