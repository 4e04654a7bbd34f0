//! What an OPA server is given to run with: its configuration file and its start command.
use vstd::prelude::*;
use vstd::string::StringExecFns;

verus! {

/// What stands in a configuration file before the URL of the bundle service.
pub const CONFIG_FILE_HEAD: &'static str = "
services:
  - name: stackable
    url: ";

/// What stands in a configuration file behind the URL of the bundle service.
pub const CONFIG_FILE_TAIL: &'static str = "

bundles:
  stackable:
    service: stackable
    resource: opa/bundle.tar.gz
    persist: true
    polling:
      min_delay_seconds: 10
      max_delay_seconds: 20";

/// The configuration file of a server that takes its rules from `repo_rule_reference`.
pub open spec fn config_file(repo_rule_reference: Seq<char>) -> Seq<char> {
    CONFIG_FILE_HEAD@ + repo_rule_reference + CONFIG_FILE_TAIL@
}

/// Writes the configuration file of a server that takes its rules from `repo_rule_reference`.
pub fn build_config_file(repo_rule_reference: &str) -> (res: String)
    ensures
        res@ == config_file(repo_rule_reference@),
        res@.len() == CONFIG_FILE_HEAD@.len() + repo_rule_reference@.len()
            + CONFIG_FILE_TAIL@.len(),
        res@.take(CONFIG_FILE_HEAD@.len() as int) == CONFIG_FILE_HEAD@,
        res@.subrange(
            CONFIG_FILE_HEAD@.len() as int,
            (CONFIG_FILE_HEAD@.len() + repo_rule_reference@.len()) as int,
        ) == repo_rule_reference@,
        res@.skip((CONFIG_FILE_HEAD@.len() + repo_rule_reference@.len()) as int)
            == CONFIG_FILE_TAIL@,
{
    proof {
        config_file_holds_reference(repo_rule_reference@);
    }
    let mut file = CONFIG_FILE_HEAD.to_string();
    file.append(repo_rule_reference);
    file.append(CONFIG_FILE_TAIL);
    file
}

/// The start command of a server: where `port` is given it listens there, and it reads its
/// configuration from the directory `conf`.
pub open spec fn start_command(port: Option<Seq<char>>) -> Seq<Seq<char>> {
    match port {
        Some(port) => seq![
            "./opa run"@,
            "-s"@,
            "-a 0.0.0.0:"@ + port,
            "-c {{configroot}}/conf/config.yaml"@,
        ],
        None => seq!["./opa run"@, "-s"@, "-c {{configroot}}/conf/config.yaml"@],
    }
}

/// Puts together the start command of a server that listens on `port`.
pub fn build_opa_start_command(port: Option<&String>) -> (res: Vec<String>)
    ensures
        res.deep_view() == start_command(port.deep_view()),
        res@.len() == if port is Some {
            4nat
        } else {
            3nat
        },
        res@[0]@ == "./opa run"@,
        res@[1]@ == "-s"@,
        port matches Some(port) ==> res@[2]@ == "-a 0.0.0.0:"@ + port@,
        res@.last()@ == "-c {{configroot}}/conf/config.yaml"@,
{
    let mut command: Vec<String> = Vec::new();
    command.push("./opa run".to_string());

    // --server
    command.push("-s".to_string());

    if let Some(port) = port {
        // --addr
        let mut address = "-a 0.0.0.0:".to_string();
        address.append(port.as_str());
        command.push(address);
    }
    // --config-file
    command.push("-c {{configroot}}/conf/config.yaml".to_string());

    assert(command.deep_view() =~= start_command(port.deep_view()));
    command
}

/// Two servers have the same configuration file only if they take their rules from the same
/// place.
pub proof fn config_file_tells_reference(a: Seq<char>, b: Seq<char>)
    requires
        config_file(a) == config_file(b),
    ensures
        a == b,
{
    let head = CONFIG_FILE_HEAD@.len() as int;
    assert(config_file(a).len() == head + a.len() + CONFIG_FILE_TAIL@.len());
    assert(config_file(b).len() == head + b.len() + CONFIG_FILE_TAIL@.len());
    assert(config_file(a).subrange(head, head + a.len()) =~= a);
    assert(config_file(b).subrange(head, head + b.len()) =~= b);
}

/// A configuration file is the fixed head, then the reference as it is, then the fixed tail, and
/// nothing else.
pub proof fn config_file_holds_reference(reference: Seq<char>)
    ensures
        ({
            let file = config_file(reference);
            let head = CONFIG_FILE_HEAD@.len() as int;
            &&& file.len() == head + reference.len() + CONFIG_FILE_TAIL@.len()
            &&& CONFIG_FILE_HEAD@.is_prefix_of(file)
            &&& CONFIG_FILE_TAIL@.is_suffix_of(file)
            &&& file.take(head) == CONFIG_FILE_HEAD@
            &&& file.subrange(head, head + reference.len()) == reference
            &&& file.skip(head + reference.len()) == CONFIG_FILE_TAIL@
        }),
{
    let file = config_file(reference);
    let head = CONFIG_FILE_HEAD@.len() as int;
    assert(file.len() == head + reference.len() + CONFIG_FILE_TAIL@.len());
    assert(file.take(head) =~= CONFIG_FILE_HEAD@);
    assert(file.subrange(head, head + reference.len()) =~= reference);
    assert(file.skip(head + reference.len()) =~= CONFIG_FILE_TAIL@);
    assert(CONFIG_FILE_HEAD@ =~= file.subrange(0, head));
    assert(CONFIG_FILE_TAIL@ =~= file.subrange(head + reference.len(), file.len() as int));
}

/// A server is told to listen exactly where `port` is given, and then on that port alone; apart
/// from that all servers are started alike.
pub proof fn command_names_its_port(port: Seq<char>, word: Seq<char>)
    ensures
        start_command(Some(port)).contains("-a 0.0.0.0:"@ + port),
        start_command(Some(port)).contains(word) && "-a "@.is_prefix_of(word) ==> word
            == "-a 0.0.0.0:"@ + port,
        start_command(None).contains(word) ==> !"-a "@.is_prefix_of(word),
        start_command(Some(port)).remove(2) == start_command(None),
        start_command(None).len() == 3,
        start_command(Some(port)).len() == 4,
        start_command(None)[0] == "./opa run"@,
        start_command(None)[1] == "-s"@,
        start_command(None)[2] == "-c {{configroot}}/conf/config.yaml"@,
{
    reveal_strlit("-a ");
    reveal_strlit("./opa run");
    reveal_strlit("-s");
    reveal_strlit("-c {{configroot}}/conf/config.yaml");
    assert(start_command(Some(port))[2] == "-a 0.0.0.0:"@ + port);
    assert(start_command(Some(port)).remove(2) =~= start_command(None));
    assert("-a "@[0] == '-' && "-a "@[1] == 'a');
    if "-a "@.is_prefix_of(word) {
        assert(word.subrange(0, 3)[0] == word[0]);
        assert(word.subrange(0, 3)[1] == word[1]);
        assert(word[0] == '-' && word[1] == 'a');
    }
}

} // verus!
