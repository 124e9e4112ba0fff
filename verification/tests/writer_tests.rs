use beardist::writer::IndentedWriter;

#[test]
fn lines_are_indented_as_they_start() {
    let mut w = IndentedWriter::new(String::new());
    w.write_str("class Home < Formula\n");
    assert_eq!(w.inner, "  class Home < Formula\n");
}

#[test]
fn indentation_follows_the_level() {
    let mut w = IndentedWriter::new(String::new()).indented();
    w.write_str("desc \"a tool\"\n");
    let w = w.outdented();
    assert_eq!(w.into_inner(), "    desc \"a tool\"\n");
}

#[test]
fn multi_line_writes_indent_every_line() {
    let mut w = IndentedWriter::new(String::new());
    w.write_str("one\ntwo\n");
    assert_eq!(w.inner, "  one\n  two\n");
}

#[test]
fn empty_lines_stay_empty() {
    let mut w = IndentedWriter::new(String::new());
    w.write_str("a\n\nb\n");
    assert_eq!(w.inner, "  a\n\n  b\n");
}

#[test]
fn writes_within_a_line_are_not_reindented() {
    let mut w = IndentedWriter::new(String::new());
    w.write_str("key ");
    w.write_str("value\n");
    assert_eq!(w.inner, "  key value\n");
}

#[test]
fn nested_levels_compose() {
    let mut w = IndentedWriter::new(String::new());
    w.write_str("if OS.mac?\n");
    let mut w = w.indented();
    w.write_str("url \"u\"\n");
    let mut w = w.outdented();
    w.write_str("end\n");
    assert_eq!(w.into_inner(), "  if OS.mac?\n    url \"u\"\n  end\n");
}
