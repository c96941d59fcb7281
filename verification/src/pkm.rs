//! The tool's configuration: where everything lives.
//!
//! The builder collects the directories relative to the repository root
//! and refuses to finish while one is missing.  Rendering templates and
//! touching the file system stay with the caller; the configuration hands
//! out builders already rooted in the right directories.

use vstd::prelude::*;
use vstd::string::StringExecFns;

use crate::date::Date;
use crate::error::Error;
use crate::image::ImageBuilder;
use crate::zettel::{ZettelBuilder, ZettelIDBuilder};
use crate::zettel_path::{path_push, spec_path_join};

verus! {

/// What a directory option becomes under the root.
pub open spec fn spec_dir_under(root: Seq<char>, dir: Option<Seq<char>>) -> Option<Seq<char>> {
    match dir {
        Some(d) => Some(spec_path_join(root, d)),
        None => None,
    }
}

/// Collects the tool's directories, each resolved under the root.
pub struct PKMBuilder {
    root: String,
    tmpl_dir: Option<String>,
    daily_dir: Option<String>,
    image_dir: Option<String>,
    zettel_dir: Option<String>,
}

impl PKMBuilder {
    /// The repository root.
    pub closed spec fn root_val(&self) -> Seq<char> {
        self.root@
    }

    /// The template directory, once set.
    pub closed spec fn tmpl_val(&self) -> Option<Seq<char>> {
        match self.tmpl_dir {
            Some(ref d) => Some(d@),
            None => None,
        }
    }

    /// The daily directory, once set.
    pub closed spec fn daily_val(&self) -> Option<Seq<char>> {
        match self.daily_dir {
            Some(ref d) => Some(d@),
            None => None,
        }
    }

    /// The image directory, once set.
    pub closed spec fn image_val(&self) -> Option<Seq<char>> {
        match self.image_dir {
            Some(ref d) => Some(d@),
            None => None,
        }
    }

    /// The zettel directory, once set.
    pub closed spec fn zettel_val(&self) -> Option<Seq<char>> {
        match self.zettel_dir {
            Some(ref d) => Some(d@),
            None => None,
        }
    }

    /// A fresh builder for the repository at `root`.
    pub fn new(root: &str) -> (r: PKMBuilder)
        ensures
            r.root_val() == root@,
            r.tmpl_val() is None,
            r.daily_val() is None,
            r.image_val() is None,
            r.zettel_val() is None,
    {
        PKMBuilder {
            root: String::from_str(root),
            tmpl_dir: None,
            daily_dir: None,
            image_dir: None,
            zettel_dir: None,
        }
    }

    /// Sets the template directory, relative to the root.
    pub fn with_tmpl_dir(self, tmpl_dir: Option<&str>) -> (r: PKMBuilder)
        ensures
            r.root_val() == self.root_val(),
            r.tmpl_val() == spec_dir_under(self.root_val(), (match tmpl_dir {
                Some(d) => Some(d@),
                None => None,
            })),
            r.daily_val() == self.daily_val(),
            r.image_val() == self.image_val(),
            r.zettel_val() == self.zettel_val(),
    {
        let mut this = self;
        this.tmpl_dir = join_under(&this.root, tmpl_dir);
        this
    }

    /// Sets the daily directory, relative to the root.
    pub fn with_daily_dir(self, daily_dir: Option<&str>) -> (r: PKMBuilder)
        ensures
            r.root_val() == self.root_val(),
            r.tmpl_val() == self.tmpl_val(),
            r.daily_val() == spec_dir_under(self.root_val(), (match daily_dir {
                Some(d) => Some(d@),
                None => None,
            })),
            r.image_val() == self.image_val(),
            r.zettel_val() == self.zettel_val(),
    {
        let mut this = self;
        this.daily_dir = join_under(&this.root, daily_dir);
        this
    }

    /// Sets the image directory, relative to the root.
    pub fn with_image_dir(self, image_dir: Option<&str>) -> (r: PKMBuilder)
        ensures
            r.root_val() == self.root_val(),
            r.tmpl_val() == self.tmpl_val(),
            r.daily_val() == self.daily_val(),
            r.image_val() == spec_dir_under(self.root_val(), (match image_dir {
                Some(d) => Some(d@),
                None => None,
            })),
            r.zettel_val() == self.zettel_val(),
    {
        let mut this = self;
        this.image_dir = join_under(&this.root, image_dir);
        this
    }

    /// Sets the zettel directory, relative to the root.
    pub fn with_zettel_dir(self, zettel_dir: Option<&str>) -> (r: PKMBuilder)
        ensures
            r.root_val() == self.root_val(),
            r.tmpl_val() == self.tmpl_val(),
            r.daily_val() == self.daily_val(),
            r.image_val() == self.image_val(),
            r.zettel_val() == spec_dir_under(self.root_val(), (match zettel_dir {
                Some(d) => Some(d@),
                None => None,
            })),
    {
        let mut this = self;
        this.zettel_dir = join_under(&this.root, zettel_dir);
        this
    }

    /// Finishes the configuration.  Each directory is required: the
    /// first missing one — template, daily, image, zettel, in that order
    /// — is reported.  The template directory becomes the glob
    /// `<dir>/**/*.md` for the caller that loads the templates.
    pub fn build(self) -> (r: Result<PKM, Error>)
        ensures
            (match r {
                Ok(p) => self.tmpl_val() is Some && self.daily_val() is Some && self.image_val()
                    is Some && self.zettel_val() is Some && p.root@ == self.root_val()
                    && p.tmpl_glob@ == spec_path_join(self.tmpl_val().unwrap(), "**/*.md"@)
                    && p.daily_dir@ == self.daily_val().unwrap() && p.image_dir@
                    == self.image_val().unwrap() && p.zettel_dir@ == self.zettel_val().unwrap(),
                Err(e) => (e matches Error::PKMError(_)) && (self.tmpl_val() is None
                    || self.daily_val() is None || self.image_val() is None || self.zettel_val()
                    is None),
            }),
    {
        let PKMBuilder { root, tmpl_dir, daily_dir, image_dir, zettel_dir } = self;
        let tmpl = match tmpl_dir {
            Some(d) => d,
            None => {
                return Err(
                    Error::PKMError(String::from_str("template directory is a required")),
                );
            },
        };
        let daily = match daily_dir {
            Some(d) => d,
            None => {
                return Err(Error::PKMError(String::from_str("daily directory is a required")));
            },
        };
        let image = match image_dir {
            Some(d) => d,
            None => {
                return Err(Error::PKMError(String::from_str("image directory is a required")));
            },
        };
        let zettel = match zettel_dir {
            Some(d) => d,
            None => {
                return Err(
                    Error::PKMError(String::from_str("Zettel directory is a required")),
                );
            },
        };
        let mut tmpl_glob = tmpl;
        path_push(&mut tmpl_glob, "**/*.md");
        Ok(
            PKM {
                root,
                tmpl_glob,
                daily_dir: daily,
                image_dir: image,
                zettel_dir: zettel,
            },
        )
    }
}

/// `dir` resolved under `root`, when given.
fn join_under(root: &String, dir: Option<&str>) -> (r: Option<String>)
    ensures
        (match r {
            Some(p) => (dir matches Some(d) && p@ == spec_path_join(root@, d@)),
            None => dir is None,
        }),
{
    match dir {
        Some(d) => {
            let mut p = root.clone();
            path_push(&mut p, d);
            Some(p)
        },
        None => None,
    }
}

/// The finished configuration: the root, the template glob, and the
/// directories for dailies, images and zettels.
pub struct PKM {
    /// The repository root.
    pub root: String,
    /// The glob the caller loads templates from.
    pub tmpl_glob: String,
    /// Where dailies live.
    pub daily_dir: String,
    /// Where images live.
    pub image_dir: String,
    /// Where zettels live.
    pub zettel_dir: String,
}

impl PKM {
    /// A builder for an image under the image directory.
    pub fn image(&self) -> (r: ImageBuilder)
        ensures
            r.base_val() == self.image_dir@,
            r.max_width_val() is None,
            r.max_height_val() is None,
    {
        ImageBuilder::new(self.image_dir.as_str())
    }

    /// A builder for a zettel under the zettel directory.
    pub fn zettel(&self) -> (r: ZettelBuilder)
        ensures
            r.path_val() == self.zettel_dir@,
            r.tmpl_val() == "default"@,
    {
        ZettelBuilder::new(self.zettel_dir.as_str())
    }

    /// The builder for the daily note of `date`: under the daily
    /// directory, in `year/month` subdirectories, named by the date's id.
    /// The caller renders or finds the file there.
    pub fn daily(&self, date: &Date) -> (r: Result<ZettelBuilder, Error>)
        ensures
            (match r {
                Ok(b) => b.path_val() == spec_path_join(
                    spec_path_join(
                        spec_path_join(
                            self.daily_dir@,
                            crate::date::pad2_chars(date.spec_year() as nat),
                        ),
                        crate::date::pad2_chars(date.spec_month() as nat),
                    ),
                    date.spec_ymd() + ".md"@,
                ) && b.tmpl_val() == "default"@,
                Err(_) => false,
            }),
    {
        let id = match ZettelIDBuilder::new().date(date).build() {
            Ok(id) => id,
            Err(e) => {
                proof {
                    assert(crate::zettel_path::spec_join(
                        seq![date.spec_ymd()],
                        '_',
                    ) == date.spec_ymd());
                    assert(date.spec_ymd().len() > 0);
                }
                return Err(e);
            },
        };
        proof {
            assert(crate::zettel_path::spec_join(seq![date.spec_ymd()], '_') == date.spec_ymd());
        }
        Ok(ZettelBuilder::new(self.daily_dir.as_str()).with_year_month(date).id(&id))
    }
}

} // verus!
