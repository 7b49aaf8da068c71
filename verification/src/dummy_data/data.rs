use crate::render::{debug_str, Render};
use crate::text::{decimal, push_str};
use vstd::prelude::*;

verus! {

/// The model of a [`TDTFileData`].
pub struct TDTFileDataView {
    pub version: u32,
    pub strings: Seq<char>,
    pub tdt_file: Option<Seq<char>>,
    pub flags: Option<u8>,
    pub num: Option<u16>,
    pub tgt_file: Option<Seq<char>>,
    pub tag: Option<Seq<char>>,
}

#[derive(Debug)]
pub struct TDTFileData {
    pub version: u32,
    pub strings: String,
    pub tdt_file: Option<String>,
    pub flags: Option<u8>,
    pub num: Option<u16>,
    pub tgt_file: Option<String>,
    pub tag: Option<String>,
}

impl DeepView for TDTFileData {
    type V = TDTFileDataView;

    open spec fn deep_view(&self) -> TDTFileDataView {
        TDTFileDataView {
            version: self.version,
            strings: self.strings@,
            tdt_file: self.tdt_file.deep_view(),
            flags: self.flags,
            num: self.num,
            tgt_file: self.tgt_file.deep_view(),
            tag: self.tag.deep_view(),
        }
    }
}

/// Appends `", {name}: {text}"` for one field.
fn push_field(s: &mut String, name: &str, text: &String)
    ensures
        final(s)@ == old(s)@ + ", "@ + name@ + ": "@ + text@,
{
    push_str(s, ", ");
    push_str(s, name);
    push_str(s, ": ");
    push_str(s, text.as_str());
}

impl Render for TDTFileData {
    open spec fn render_exact() -> bool {
        true
    }

    open spec fn spec_render(v: TDTFileDataView) -> Seq<char> {
        "TDTFileData { version: "@ + decimal(v.version as nat) + ", "@ + "strings"@ + ": "@
            + debug_str(v.strings) + ", "@ + "tdt_file"@ + ": "@ + Option::<String>::spec_render(
            v.tdt_file,
        ) + ", "@ + "flags"@ + ": "@ + Option::<u8>::spec_render(v.flags) + ", "@ + "num"@ + ": "@
            + Option::<u16>::spec_render(v.num) + ", "@ + "tgt_file"@ + ": "@
            + Option::<String>::spec_render(v.tgt_file) + ", "@ + "tag"@ + ": "@
            + Option::<String>::spec_render(v.tag) + " }"@
    }

    fn render(&self) -> (r: String) {
        let mut s = "TDTFileData { version: ".to_owned();
        let version = self.version.render();
        push_str(&mut s, version.as_str());
        push_field(&mut s, "strings", &self.strings.render());
        push_field(&mut s, "tdt_file", &self.tdt_file.render());
        push_field(&mut s, "flags", &self.flags.render());
        push_field(&mut s, "num", &self.num.render());
        push_field(&mut s, "tgt_file", &self.tgt_file.render());
        push_field(&mut s, "tag", &self.tag.render());
        push_str(&mut s, " }");
        s
    }
}

} // verus!
