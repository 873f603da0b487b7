use xnb::{bare_reader_name, generic_types_from_reader, reader_from_type, Error};

fn args(name: &str) -> Result<Vec<String>, Error> {
    generic_types_from_reader(name)
}

#[test]
fn generic_name_with_one_argument() {
    assert_eq!(bare_reader_name("Foo`1[[Bar, Asm]]"), "Foo");
    assert_eq!(args("Foo`1[[Bar, Asm]]"), Ok(vec!["Bar".to_string()]));
}

#[test]
fn generic_name_with_nested_argument() {
    let name = "Foo`2[[Bar,Asm],[Baz`1[[Qux,Asm]],Asm]]";
    assert_eq!(bare_reader_name(name), "Foo");
    assert_eq!(args(name), Ok(vec!["Bar".to_string(), "Baz`1[[Qux,Asm]]".to_string()]));
}

#[test]
fn unbalanced_brackets_are_malformed() {
    assert_eq!(args("Foo`1[[Bar, Asm]"), Err(Error::MalformedGenericName));
    assert_eq!(args("Foo`1[[Bar, Asm]]]"), Err(Error::MalformedGenericName));
    assert_eq!(args("Foo`1]["), Err(Error::MalformedGenericName));
    assert_eq!(args("Foo`1["), Err(Error::MalformedGenericName));
}

#[test]
fn name_without_backtick_has_no_arguments() {
    assert_eq!(args("Microsoft.Xna.Framework.Content.Texture2DReader"), Ok(vec![]));
    assert_eq!(args(""), Ok(vec![]));
    assert_eq!(args("Foo[[Bar]]"), Ok(vec![]));
}

#[test]
fn backtick_without_brackets_has_no_arguments() {
    assert_eq!(args("Foo`"), Ok(vec![]));
    assert_eq!(args("Foo`1"), Ok(vec![]));
    assert_eq!(args("Foo`1[]"), Ok(vec![]));
}

#[test]
fn bare_name_drops_the_assembly() {
    assert_eq!(
        bare_reader_name(
            "Microsoft.Xna.Framework.Content.Texture2DReader, Microsoft.Xna.Framework.Graphics, Version=4.0.0.0"
        ),
        "Microsoft.Xna.Framework.Content.Texture2DReader"
    );
    assert_eq!(bare_reader_name("Plain"), "Plain");
    assert_eq!(bare_reader_name(""), "");
    assert_eq!(bare_reader_name(",x"), "");
    assert_eq!(bare_reader_name("a,b`1[[c]]"), "a");
}

#[test]
fn real_dictionary_reader_identity() {
    let name = "Microsoft.Xna.Framework.Content.DictionaryReader`2[[System.Int32, mscorlib, Version=4.0.0.0, Culture=neutral, PublicKeyToken=b77a5c561934e089],[System.String, mscorlib, Version=4.0.0.0, Culture=neutral, PublicKeyToken=b77a5c561934e089]]";
    assert_eq!(bare_reader_name(name), "Microsoft.Xna.Framework.Content.DictionaryReader");
    assert_eq!(args(name), Ok(vec!["System.Int32".to_string(), "System.String".to_string()]));
}

#[test]
fn argument_without_comma_is_taken_whole() {
    assert_eq!(args("Foo`1[[Bar]]"), Ok(vec!["Bar".to_string()]));
    assert_eq!(args("Foo`1[[]]"), Ok(vec![String::new()]));
    assert_eq!(args("Foo`1[[,Asm]]"), Ok(vec![String::new()]));
}

#[test]
fn arity_of_two_digits_is_skipped() {
    assert_eq!(args("Foo`10[[A],[B]]"), Ok(vec!["A".to_string(), "B".to_string()]));
}

#[test]
fn text_behind_the_arguments_is_ignored() {
    assert_eq!(args("Foo`1[[Bar, Asm]], Asm2, Version=1"), Ok(vec!["Bar".to_string()]));
}

#[test]
fn argument_names_keep_non_ascii_characters() {
    assert_eq!(args("F\u{e9}`1[[B\u{e9}r, Asm]]"), Ok(vec!["B\u{e9}r".to_string()]));
    assert_eq!(bare_reader_name("F\u{e9}e`1[[x]]"), "F\u{e9}e");
}

#[test]
fn well_known_primitives_have_inline_readers() {
    assert_eq!(reader_from_type("System.Int32"), Some("Microsoft.Xna.Framework.Content.Int32Reader"));
    assert_eq!(reader_from_type("System.Char"), Some("Microsoft.Xna.Framework.Content.CharReader"));
    assert_eq!(
        reader_from_type("Microsoft.Xna.Framework.Vector3"),
        Some("Microsoft.Xna.Framework.Content.Vector3Reader")
    );
    assert_eq!(
        reader_from_type("Microsoft.Xna.Framework.Rectangle"),
        Some("Microsoft.Xna.Framework.Content.RectangleReader")
    );
    assert_eq!(reader_from_type("System.String"), None);
    assert_eq!(reader_from_type("system.int32"), None);
    assert_eq!(reader_from_type(""), None);
}
