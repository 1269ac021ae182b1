use horned_owl::io::rdf::reader::{read, ParseError};
use horned_owl::io::rdf::screen::is_supported;

const ROOT: &str = "<rdf:RDF xmlns:rdf=\"http://www.w3.org/1999/02/22-rdf-syntax-ns#\" xmlns:ex=\"http://e/\">";

const PIECES: [&str; 14] = [
    "<ex:N rdf:about=\"http://e/a\">",
    "<ex:N rdf:about=\"http://e/b\"/>",
    "</ex:N>",
    "<ex:p>",
    "</ex:p>",
    "<ex:p rdf:resource=\"http://e/c\"/>",
    "<ex:p rdf:parseType=\"Collection\">",
    "<ex:p rdf:datatype=\"http://e/d\">",
    "text",
    "<ex:p rdf:ID=\"i\">",
    "<ex:p ex:q=\"v\">",
    "<ex:p rdf:resource=\"http://e/c\">",
    "<rdf:li>",
    "</rdf:li>",
];

const NESTING: [&str; 8] = [
    "<ex:N rdf:about=\"http://e/a\">",
    "<ex:N/>",
    "</ex:N>",
    "<ex:p>",
    "</ex:p>",
    "<ex:p rdf:resource=\"http://e/c\"/>",
    "<ex:p rdf:parseType=\"Collection\">",
    "text",
];

const TEXTS: [&[u8]; 12] = [
    b"<ex:N rdf:about=\"http://e/a\">",
    b"</ex:N>",
    b"<ex:p>",
    b"</ex:p>",
    b"<ex:p xml:lang=\"fr\">",
    "\u{e9}t\u{e9} \u{10348}".as_bytes(),
    b"&#233;&#x10348;",
    b"&#xD800;&#0;&#1114112;&#xFFFFFF;",
    b"\xff\xfe\xc3",
    b"&#; &x &#xg; &#12345678; ;&",
    b"<ex:p rdf:datatype=\"http://e/d\">",
    b"\"Literal\" 'Resource' \"Collection\" > rdf:parseType=\"Literal\"",
];

/// Reads every document made of the root and `length` pieces of text and tags
/// that starts with the piece `first`, and returns how many of them the screen
/// admits.
fn read_all_texts(first: usize, length: usize) -> usize {
    let mut admitted = 0;
    let mut choice = vec![0usize; length];
    choice[0] = first;
    loop {
        let mut doc = ROOT.as_bytes().to_vec();
        for c in &choice {
            doc.extend_from_slice(TEXTS[*c]);
        }
        let supported = is_supported(&doc);
        match read(&doc) {
            Ok(_) => assert!(supported),
            Err(ParseError::SyntaxError(_)) => assert!(supported),
            Err(ParseError::Unsupported) => assert!(!supported),
            Err(other) => panic!("unexpected: {:?}", other),
        }
        if supported {
            admitted += 1;
        }
        let mut k = length;
        loop {
            if k == 1 {
                return admitted;
            }
            k -= 1;
            choice[k] += 1;
            if choice[k] < TEXTS.len() {
                break;
            }
            choice[k] = 0;
        }
    }
}

/// Reads every document made of the root and `length` pieces that starts with
/// the piece `first`, and returns how many of them the screen admits. A
/// document that the screen admits must be read to an end: to an ontology or to
/// a syntax error.
fn read_all(first: usize, length: usize) -> usize {
    read_all_of(&PIECES, first, length)
}

fn read_all_of(pieces: &[&str], first: usize, length: usize) -> usize {
    let mut admitted = 0;
    let mut choice = vec![0usize; length];
    choice[0] = first;
    loop {
        let mut doc = String::from(ROOT);
        for c in &choice {
            doc.push_str(pieces[*c]);
        }
        let supported = is_supported(doc.as_bytes());
        match read(doc.as_bytes()) {
            Ok(_) => assert!(supported),
            Err(ParseError::SyntaxError(_)) => assert!(supported),
            Err(ParseError::Unsupported) => assert!(!supported),
            Err(other) => panic!("unexpected: {:?}", other),
        }
        if supported {
            admitted += 1;
        }
        let mut k = length;
        loop {
            if k == 1 {
                return admitted;
            }
            k -= 1;
            choice[k] += 1;
            if choice[k] < pieces.len() {
                break;
            }
            choice[k] = 0;
        }
    }
}

#[test]
fn admitted_documents_of_up_to_four_pieces_are_read_to_an_end() {
    let mut admitted = 0;
    for length in 1..=4 {
        for first in 0..PIECES.len() {
            admitted += read_all(first, length);
        }
    }
    assert!(admitted > 1000, "{}", admitted);
}

#[test]
fn admitted_documents_of_five_pieces_are_read_to_an_end_0() {
    read_all(0, 5);
}

#[test]
fn admitted_documents_of_five_pieces_are_read_to_an_end_1() {
    read_all(1, 5);
}

#[test]
fn admitted_documents_of_five_pieces_are_read_to_an_end_2() {
    read_all(2, 5);
}

#[test]
fn admitted_documents_of_five_pieces_are_read_to_an_end_3() {
    read_all(3, 5);
}

#[test]
fn admitted_documents_of_five_pieces_are_read_to_an_end_4() {
    read_all(4, 5);
}

#[test]
fn admitted_documents_of_five_pieces_are_read_to_an_end_5() {
    read_all(5, 5);
}

#[test]
fn admitted_documents_of_five_pieces_are_read_to_an_end_6() {
    read_all(6, 5);
}

#[test]
fn admitted_documents_of_five_pieces_are_read_to_an_end_7() {
    read_all(7, 5);
}

#[test]
fn admitted_documents_of_five_pieces_are_read_to_an_end_8() {
    read_all(8, 5);
}

#[test]
fn admitted_documents_of_five_pieces_are_read_to_an_end_9() {
    read_all(9, 5);
}

#[test]
fn admitted_documents_of_five_pieces_are_read_to_an_end_10() {
    read_all(10, 5);
}

#[test]
fn admitted_documents_of_five_pieces_are_read_to_an_end_11() {
    read_all(11, 5);
}

#[test]
fn admitted_documents_of_five_pieces_are_read_to_an_end_12() {
    read_all(12, 5);
}

#[test]
fn admitted_documents_of_five_pieces_are_read_to_an_end_13() {
    read_all(13, 5);
}

#[test]
fn nested_documents_of_seven_pieces_are_read_to_an_end_0() {
    read_all_of(&NESTING, 0, 7);
}

#[test]
fn nested_documents_of_seven_pieces_are_read_to_an_end_1() {
    read_all_of(&NESTING, 1, 7);
}

#[test]
fn nested_documents_of_seven_pieces_are_read_to_an_end_2() {
    read_all_of(&NESTING, 2, 7);
}

#[test]
fn nested_documents_of_seven_pieces_are_read_to_an_end_3() {
    read_all_of(&NESTING, 3, 7);
}

#[test]
fn nested_documents_of_seven_pieces_are_read_to_an_end_4() {
    read_all_of(&NESTING, 4, 7);
}

#[test]
fn nested_documents_of_seven_pieces_are_read_to_an_end_5() {
    read_all_of(&NESTING, 5, 7);
}

#[test]
fn nested_documents_of_seven_pieces_are_read_to_an_end_6() {
    read_all_of(&NESTING, 6, 7);
}

#[test]
fn nested_documents_of_seven_pieces_are_read_to_an_end_7() {
    read_all_of(&NESTING, 7, 7);
}

#[test]
fn documents_with_text_of_up_to_four_pieces_are_read_to_an_end() {
    let mut admitted = 0;
    for length in 1..=4 {
        for first in 0..TEXTS.len() {
            admitted += read_all_texts(first, length);
        }
    }
    assert!(admitted > 1000, "{}", admitted);
}

#[test]
fn documents_with_text_of_five_pieces_are_read_to_an_end_0() {
    read_all_texts(0, 5);
}

#[test]
fn documents_with_text_of_five_pieces_are_read_to_an_end_1() {
    read_all_texts(1, 5);
}

#[test]
fn documents_with_text_of_five_pieces_are_read_to_an_end_2() {
    read_all_texts(2, 5);
}

#[test]
fn documents_with_text_of_five_pieces_are_read_to_an_end_3() {
    read_all_texts(3, 5);
}

#[test]
fn documents_with_text_of_five_pieces_are_read_to_an_end_4() {
    read_all_texts(4, 5);
}

#[test]
fn documents_with_text_of_five_pieces_are_read_to_an_end_5() {
    read_all_texts(5, 5);
}

#[test]
fn documents_with_text_of_five_pieces_are_read_to_an_end_6() {
    read_all_texts(6, 5);
}

#[test]
fn documents_with_text_of_five_pieces_are_read_to_an_end_7() {
    read_all_texts(7, 5);
}

#[test]
fn documents_with_text_of_five_pieces_are_read_to_an_end_8() {
    read_all_texts(8, 5);
}

#[test]
fn documents_with_text_of_five_pieces_are_read_to_an_end_9() {
    read_all_texts(9, 5);
}

#[test]
fn documents_with_text_of_five_pieces_are_read_to_an_end_10() {
    read_all_texts(10, 5);
}

#[test]
fn documents_with_text_of_five_pieces_are_read_to_an_end_11() {
    read_all_texts(11, 5);
}
