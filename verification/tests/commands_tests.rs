use domain_experts::commands::{help_text, parse_command, Command, CommandError};

#[test]
fn test_parse_persona_command() {
    let result = parse_command("/persona mechanic").unwrap();
    assert_eq!(result, Command::Persona { name: "mechanic".to_string() });
}

#[test]
fn test_parse_reuniao_command() {
    let result = parse_command("/reuniao mechanic attendant").unwrap();
    assert_eq!(
        result,
        Command::Reuniao {
            personas: vec!["mechanic".to_string(), "attendant".to_string()],
            topic: "General discussion".to_string(),
        }
    );
}

#[test]
fn test_parse_reuniao_with_topic() {
    let result = parse_command("/reuniao mechanic attendant -- Repair cost discussion").unwrap();
    assert_eq!(
        result,
        Command::Reuniao {
            personas: vec!["mechanic".to_string(), "attendant".to_string()],
            topic: "Repair cost discussion".to_string(),
        }
    );
}

#[test]
fn test_parse_qualidade_command() {
    let result = parse_command("/qualidade").unwrap();
    assert_eq!(result, Command::Qualidade);
}

#[test]
fn test_parse_consistencia_command() {
    let result = parse_command("/consistencia mechanic").unwrap();
    assert_eq!(result, Command::Consistencia { persona_id: Some("mechanic".to_string()) });
}

#[test]
fn test_parse_consistencia_no_persona() {
    let result = parse_command("/consistencia").unwrap();
    assert_eq!(result, Command::Consistencia { persona_id: None });
}

#[test]
fn test_parse_decisao_command() {
    let result = parse_command("/decisao Replace the brake pads").unwrap();
    assert_eq!(result, Command::Decisao { description: "Replace the brake pads".to_string() });
}

#[test]
fn test_parse_historico() {
    let result = parse_command("/historico").unwrap();
    assert_eq!(result, Command::Historico);
}

#[test]
fn test_parse_contexto() {
    let result = parse_command("/contexto").unwrap();
    assert_eq!(result, Command::Contexto);
}

#[test]
fn test_parse_help() {
    let result = parse_command("/ajuda").unwrap();
    assert_eq!(result, Command::Help);
}

#[test]
fn test_parse_exit() {
    let result = parse_command("/sair").unwrap();
    assert_eq!(result, Command::Exit);
}

#[test]
fn test_parse_message() {
    let result = parse_command("What is wrong with the engine?").unwrap();
    assert_eq!(result, Command::Message { content: "What is wrong with the engine?".to_string() });
}

#[test]
fn test_parse_unknown_command() {
    let result = parse_command("/unknown");
    assert!(result.is_err());
}

#[test]
fn test_parse_persona_missing_name() {
    let result = parse_command("/persona");
    assert!(result.is_err());
}

#[test]
fn test_parse_reuniao_too_few_personas() {
    let result = parse_command("/reuniao mechanic");
    assert!(result.is_err());
}

#[test]
fn test_parse_case_insensitive() {
    let result = parse_command("/PERSONA mechanic").unwrap();
    assert_eq!(result, Command::Persona { name: "mechanic".to_string() });
}

#[test]
fn parse_errors_name_the_problem() {
    assert_eq!(parse_command("/unknown"), Err(CommandError::UnknownCommand("/unknown".to_string())));
    assert_eq!(parse_command("/reuniao mechanic"), Err(CommandError::TooFewPersonas));
    match parse_command("/persona") {
        Err(CommandError::MissingArgument { command, .. }) => assert_eq!(command, "persona"),
        other => panic!("unexpected {:?}", other),
    }
}

#[test]
fn parse_aliases_and_spacing() {
    assert_eq!(parse_command("  /help  ").unwrap(), Command::Help);
    assert_eq!(parse_command("/exit").unwrap(), Command::Exit);
    assert_eq!(parse_command("  hello  ").unwrap(), Command::Message { content: "hello".to_string() });
}

#[test]
fn help_text_lists_commands() {
    let h = help_text();
    assert!(h.contains("/persona"));
    assert!(h.contains("/reuniao"));
    assert!(h.contains("/sair"));
}
