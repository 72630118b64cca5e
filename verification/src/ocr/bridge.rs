use vstd::prelude::*;
use vstd::string::StringExecFns;

verus! {

/// One region that OCR recognized: its text, the corners of its box
/// (`x0, y0, x1, y1`), its confidence in millionths, its kind (`"text"`,
/// `"table"`, `"figure"` or `"math"`) and, for math, its LaTeX.
#[derive(Debug, Clone)]
pub struct OcrToken {
    pub text: String,
    pub bbox: [i32; 4],
    pub confidence: u32,
    pub block_type: String,
    pub latex: Option<String>,
}

/// The value of an [`OcrToken`].
pub struct OcrTokenView {
    pub text: Seq<char>,
    pub bbox: Seq<i32>,
    pub confidence: u32,
    pub block_type: Seq<char>,
    pub latex: Option<Seq<char>>,
}

impl DeepView for OcrToken {
    type V = OcrTokenView;

    open spec fn deep_view(&self) -> OcrTokenView {
        OcrTokenView {
            text: self.text@,
            bbox: self.bbox@,
            confidence: self.confidence,
            block_type: self.block_type@,
            latex: self.latex.deep_view(),
        }
    }
}

impl View for OcrToken {
    type V = OcrTokenView;

    open spec fn view(&self) -> OcrTokenView {
        self.deep_view()
    }
}

/// The kind of a token that names none.
pub fn default_block_type() -> (r: String)
    ensures
        r@ == "text"@,
{
    String::from_str("text")
}

/// The confidence of a token that states none: one half.
pub fn default_confidence() -> (r: u32)
    ensures
        r == 500_000,
{
    500_000
}

/// How the OCR bridge script is reached: the directory it works in, the path
/// of the script and the languages it is asked to read.
#[derive(Debug, Clone)]
pub struct OcrBridge {
    work_dir: String,
    script_path: String,
    lang: String,
}

/// The value of an [`OcrBridge`].
pub struct OcrBridgeView {
    pub work_dir: Seq<char>,
    pub script_path: Seq<char>,
    pub lang: Seq<char>,
}

impl View for OcrBridge {
    type V = OcrBridgeView;

    closed spec fn view(&self) -> OcrBridgeView {
        OcrBridgeView { work_dir: self.work_dir@, script_path: self.script_path@, lang: self.lang@ }
    }
}

impl OcrBridge {
    /// A bridge to the bundled script, reading English and Korean.
    pub fn new(work_dir: String) -> (r: Self)
        ensures
            r@ == (OcrBridgeView {
                work_dir: work_dir@,
                script_path: "ocr/bridge/ocr_bridge.py"@,
                lang: "eng+kor"@,
            }),
    {
        OcrBridge {
            work_dir,
            script_path: String::from_str("ocr/bridge/ocr_bridge.py"),
            lang: String::from_str("eng+kor"),
        }
    }

    /// The same bridge with another script.
    pub fn with_script(self, script_path: String) -> (r: Self)
        ensures
            r@ == (OcrBridgeView { script_path: script_path@, ..self@ }),
    {
        OcrBridge { work_dir: self.work_dir, script_path, lang: self.lang }
    }

    /// The same bridge with other languages.
    pub fn with_lang(self, lang: String) -> (r: Self)
        ensures
            r@ == (OcrBridgeView { lang: lang@, ..self@ }),
    {
        OcrBridge { work_dir: self.work_dir, script_path: self.script_path, lang }
    }

    pub fn work_dir(&self) -> (r: &str)
        ensures
            r@ == self@.work_dir,
    {
        self.work_dir.as_str()
    }

    pub fn script_path(&self) -> (r: &str)
        ensures
            r@ == self@.script_path,
    {
        self.script_path.as_str()
    }

    pub fn lang(&self) -> (r: &str)
        ensures
            r@ == self@.lang,
    {
        self.lang.as_str()
    }

    /// The arguments that the interpreter is started with to read one image.
    pub fn command_arguments(&self, image_path: &str) -> (args: Vec<String>)
        ensures
            args.deep_view() == seq![
                self@.script_path,
                "--image"@,
                image_path@,
                "--lang"@,
                self@.lang,
            ],
    {
        let mut args: Vec<String> = Vec::new();
        args.push(self.script_path.clone());
        args.push(String::from_str("--image"));
        args.push(String::from_str(image_path));
        args.push(String::from_str("--lang"));
        args.push(self.lang.clone());
        assert(args.deep_view() =~= seq![
            self@.script_path,
            "--image"@,
            image_path@,
            "--lang"@,
            self@.lang,
        ]);
        args
    }
}

} // verus!
