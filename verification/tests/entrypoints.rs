use microvm::entrypoint::{
    create_entrypoint_script, escape_word, shell_command, shell_escape, ENTRYPOINT_MODE,
};
use microvm::image::ImageConfig;

fn strings(words: &[&str]) -> Vec<String> {
    words.iter().map(|word| word.to_string()).collect()
}

fn empty() -> ImageConfig {
    ImageConfig { cmd: None, entrypoint: None, env: None, working_dir: None, user: None }
}

#[test]
fn plain_words_are_not_quoted() {
    for word in ["nginx", "/usr/bin/env", "--flag_1.2", "", "größe", "東京", "½"] {
        assert_eq!(shell_escape(word), word);
    }
}

#[test]
fn other_words_are_quoted() {
    assert_eq!(shell_escape("a b"), "'a b'");
    assert_eq!(shell_escape("$HOME"), "'$HOME'");
    assert_eq!(shell_escape("a=b"), "'a=b'");
    assert_eq!(shell_escape("daemon off;"), "'daemon off;'");
    assert_eq!(shell_escape("line\nbreak"), "'line\nbreak'");
    assert_eq!(shell_escape("it's"), "'it'\"'\"'s'");
    assert_eq!(shell_escape("'"), "''\"'\"''");
    assert_eq!(shell_escape("\u{2028}"), "'\u{2028}'");
}

#[test]
fn word_is_written_as_it_is_said_to_be() {
    assert_eq!(escape_word("a b", true), "a b");
    assert_eq!(escape_word("ab", false), "'ab'");
    assert_eq!(escape_word("", false), "''");
}

#[test]
fn words_of_a_command_are_separated_by_spaces() {
    assert_eq!(shell_command(&strings(&[])), "");
    assert_eq!(shell_command(&strings(&["ls"])), "ls");
    assert_eq!(
        shell_command(&strings(&["sh", "-c", "echo 'hi'"])),
        "sh -c 'echo '\"'\"'hi'\"'\"''"
    );
}

#[test]
fn script_of_an_image_without_command_starts_a_shell() {
    assert_eq!(
        create_entrypoint_script(&empty()),
        "#!/bin/bash\n# Auto-generated entrypoint script\n\n# No command specified\nexec /bin/bash\n"
    );
}

#[test]
fn script_sets_everything_that_the_image_says() {
    let config = ImageConfig {
        cmd: Some(strings(&["-g", "daemon off;"])),
        entrypoint: Some(strings(&["/usr/sbin/nginx"])),
        env: Some(strings(&["PATH=/bin", "A=b c"])),
        working_dir: Some("/srv".to_string()),
        user: Some("web".to_string()),
    };
    assert_eq!(
        create_entrypoint_script(&config),
        "#!/bin/bash\n\
         # Auto-generated entrypoint script\n\
         \n\
         # Environment variables\n\
         export PATH=/bin\n\
         export A=b c\n\
         \n\
         cd /srv\n\
         \n\
         # Run as user: web\n\
         # Execute command\n\
         exec /usr/sbin/nginx -g 'daemon off;'\n"
    );
}

#[test]
fn script_names_an_empty_environment() {
    let config = ImageConfig { env: Some(vec![]), cmd: Some(strings(&["top"])), ..empty() };
    assert_eq!(
        create_entrypoint_script(&config),
        "#!/bin/bash\n# Auto-generated entrypoint script\n\n\
         # Environment variables\n\n# Execute command\nexec top\n"
    );
}

#[test]
fn script_may_be_run_by_everyone() {
    assert_eq!(ENTRYPOINT_MODE, 0o755);
}

/// The words of a line, with single and double quotes taken off as a shell does.
fn words_of(line: &str) -> Vec<String> {
    let mut words = Vec::new();
    let mut word: Option<String> = None;
    let mut quote: Option<char> = None;
    for c in line.chars() {
        match quote {
            Some(open) if c == open => quote = None,
            Some(_) => word.get_or_insert_with(String::new).push(c),
            None if c == '\'' || c == '"' => {
                quote = Some(c);
                word.get_or_insert_with(String::new);
            }
            None if c == ' ' => words.extend(word.take()),
            None => word.get_or_insert_with(String::new).push(c),
        }
    }
    assert_eq!(quote, None);
    words.extend(word);
    words
}

#[test]
fn shell_reads_a_command_as_its_words() {
    let words = strings(&[
        "sh", "-c", "echo \"it's $HOME\" > 'x'; exit", "''", "a  b", "\\", "\t", "ä", "#",
    ]);
    assert_eq!(words_of(&shell_command(&words)), words);
    for word in &words {
        assert_eq!(words_of(&shell_escape(word)), vec![word.clone()]);
    }
}

#[test]
fn empty_word_is_lost_in_a_command() {
    assert_eq!(shell_command(&strings(&["a", "", "b"])), "a  b");
    assert_eq!(words_of("a  b"), strings(&["a", "b"]));
}
