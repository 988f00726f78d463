use cellvm::parse::parse_line;
use regex::Regex;

fn patterns() -> Vec<Regex> {
    [
        r"^$",
        r"^flip type [0-9]+$",
        r"^jump [0-9]+$",
        r"^jump addr [0-9]+$",
        r"^jump addr cmp [0-9]+ [0-9]+ [0-9]+ [0-9]+ [0-9]+$",
        r"^swap [0-9]+ [0-9]+$",
        r"^copy [0-9]+ [0-9]+$",
        r"^add [0-9]+ [0-9]+$",
        r"^sub [0-9]+ [0-9]+$",
        r"^mul [0-9]+ [0-9]+$",
        r"^div [0-9]+ [0-9]+$",
        r"^del [0-9]+$",
        r"^print [0-9]+$",
        r"^exit( [0-9]+)?$",
        r"^_[0-9]+$",
        r"(?s)^.$",
    ]
    .iter()
    .map(|pattern| Regex::new(pattern).unwrap())
    .collect()
}

#[test]
fn a_line_encodes_a_cell_where_a_pattern_of_the_format_matches_it() {
    let patterns = patterns();
    let heads = [
        "", "flip type", "flip", "type", "jump", "jump addr", "jump addr cmp", "jump cmp",
        "swap", "copy", "add", "sub", "mul", "div", "del", "print", "exit", "_", "x", "\u{e9}",
        "jumps", "Jump", " jump", "adds", "nop", "sync",
    ];
    let tails = [
        "", " ", "1", " 1", " 12", " 007", " 1 2", " 1 2 3", " 1 2 3 4", " 1 2 3 4 5",
        " 1 2 3 4 5 6", " x", " 1 ", "  1", " 1  2", " -1", " +1", " 1x", "\t1", " 1\n",
        " \u{663}",
    ];
    let mut cells = 0;
    for head in heads {
        for tail in tails {
            let line = format!("{}{}", head, tail);
            let matched = patterns.iter().any(|pattern| pattern.is_match(&line));
            assert_eq!(matched, parse_line(&line).is_some(), "{:?}", line);
            if matched {
                cells += 1;
            }
        }
    }
    assert!(cells > 20);
}
