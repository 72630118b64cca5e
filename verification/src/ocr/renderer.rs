use vstd::prelude::*;
use vstd::string::StringExecFns;
use crate::text::decimal::{decimal, decimal_spec, padded_decimal, padded_decimal_spec};
use crate::text::strings::string_of;

verus! {

/// A page as the rasterizer left it: the path of the image and its nominal size.
#[derive(Debug, Clone)]
pub struct RenderedPage {
    pub path: String,
    pub width: u32,
    pub height: u32,
}

/// Where and at which resolution pages are rendered.
#[derive(Debug, Clone)]
pub struct PageRenderer {
    out_dir: String,
    dpi: u32,
}

/// `dpi * factor`, held at the largest 32-bit number.
pub open spec fn scaled_size(dpi: u32, factor: u32) -> u32 {
    if dpi * factor > u32::MAX {
        u32::MAX
    } else {
        (dpi * factor) as u32
    }
}

/// The name that the rasterizer is given as prefix for page `page_idx`:
/// `page_` and the page number, counted from one, in three digits or more.
pub open spec fn image_prefix_spec(page_idx: usize) -> Seq<char> {
    "page_"@ + padded_decimal_spec((page_idx + 1) as nat, 3)
}

/// The name of the image that the rasterizer writes for page `page_idx`.
pub open spec fn image_file_name_spec(page_idx: usize) -> Seq<char> {
    image_prefix_spec(page_idx) + "-"@ + decimal_spec((page_idx + 1) as nat) + ".png"@
}

impl PageRenderer {
    pub closed spec fn spec_out_dir(&self) -> Seq<char> {
        self.out_dir@
    }

    pub closed spec fn spec_dpi(&self) -> u32 {
        self.dpi
    }

    pub fn new(out_dir: String, dpi: u32) -> (r: Self)
        ensures
            r.spec_out_dir() == out_dir@,
            r.spec_dpi() == dpi,
    {
        PageRenderer { out_dir, dpi }
    }

    pub fn out_dir(&self) -> (r: &str)
        ensures
            r@ == self.spec_out_dir(),
    {
        self.out_dir.as_str()
    }

    pub fn dpi(&self) -> (r: u32)
        ensures
            r == self.spec_dpi(),
    {
        self.dpi
    }

    /// The nominal size of a rendered page: 1000 by 1400 at 200 dpi, in proportion otherwise.
    pub fn nominal_size(&self) -> (size: (u32, u32))
        ensures
            size.0 == scaled_size(self.spec_dpi(), 5),
            size.1 == scaled_size(self.spec_dpi(), 7),
    {
        let width: u32 = if self.dpi > u32::MAX / 5 {
            u32::MAX
        } else {
            self.dpi * 5
        };
        let height: u32 = if self.dpi > u32::MAX / 7 {
            u32::MAX
        } else {
            self.dpi * 7
        };
        (width, height)
    }

    /// The prefix that the rasterizer is given for a page.
    pub fn image_prefix(page_idx: usize) -> (name: String)
        ensures
            name@ == image_prefix_spec(page_idx),
    {
        let mut name = String::from_str("page_");
        let digits = padded_decimal(page_idx as u128 + 1, 3);
        let number = string_of(digits.as_slice());
        name.append(number.as_str());
        name
    }

    /// The name of the image that the rasterizer writes for a page.
    pub fn image_file_name(page_idx: usize) -> (name: String)
        ensures
            name@ == image_file_name_spec(page_idx),
    {
        let mut name = Self::image_prefix(page_idx);
        name.append("-");
        let digits = decimal(page_idx as u128 + 1);
        let number = string_of(digits.as_slice());
        name.append(number.as_str());
        name.append(".png");
        name
    }

    /// The arguments that the rasterizer is started with to render one page
    /// of the document at `pdf_path` into the image that `prefix` names.
    pub fn command_arguments(&self, pdf_path: &str, page_idx: usize, prefix: &str) -> (args: Vec<
        String,
    >)
        ensures
            args.deep_view() == seq![
                "-png"@,
                "-r"@,
                decimal_spec(self.spec_dpi() as nat),
                "-f"@,
                decimal_spec((page_idx + 1) as nat),
                "-l"@,
                decimal_spec((page_idx + 1) as nat),
                pdf_path@,
                prefix@,
            ],
    {
        let dpi = string_of(decimal(self.dpi as u128).as_slice());
        let number = string_of(decimal(page_idx as u128 + 1).as_slice());
        let mut args: Vec<String> = Vec::new();
        args.push(String::from_str("-png"));
        args.push(String::from_str("-r"));
        args.push(dpi);
        args.push(String::from_str("-f"));
        args.push(number.clone());
        args.push(String::from_str("-l"));
        args.push(number);
        args.push(String::from_str(pdf_path));
        args.push(String::from_str(prefix));
        assert(args.deep_view() =~= seq![
            "-png"@,
            "-r"@,
            decimal_spec(self.spec_dpi() as nat),
            "-f"@,
            decimal_spec((page_idx + 1) as nat),
            "-l"@,
            decimal_spec((page_idx + 1) as nat),
            pdf_path@,
            prefix@,
        ]);
        args
    }

    /// What the rasterizer produced for a page, given the path of its image.
    pub fn rendered_page(&self, path: String) -> (page: RenderedPage)
        ensures
            page.path@ == path@,
            page.width == scaled_size(self.spec_dpi(), 5),
            page.height == scaled_size(self.spec_dpi(), 7),
    {
        let (width, height) = self.nominal_size();
        RenderedPage { path, width, height }
    }
}

} // verus!
