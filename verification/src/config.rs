//! Settings of a run: whose posts, where the files go, how they are named.

use vstd::prelude::*;
use crate::model::PostType;

verus! {

/// The patterns used where none are configured.
pub open spec fn default_patterns() -> Patterns {
    Patterns {
        image: "{type}/{post_id} - {title}/{link_id}"@,
        video: "{type}/{post_id} - {title}"@,
    }
}

/// One filename pattern for each post type.
#[derive(Debug)]
pub struct FilenamePatterns {
    pub image: String,
    pub video: String,
}

/// The mathematical value of the filename patterns.
pub struct Patterns {
    pub image: Seq<char>,
    pub video: Seq<char>,
}

impl Patterns {
    /// The pattern for posts of one type.
    pub open spec fn of(self, post_type: PostType) -> Seq<char> {
        match post_type {
            PostType::Image => self.image,
            PostType::Video => self.video,
        }
    }
}

impl View for FilenamePatterns {
    type V = Patterns;

    open spec fn view(&self) -> Patterns {
        Patterns { image: self.image@, video: self.video@ }
    }
}

impl FilenamePatterns {
    /// The pattern for posts of one type.
    pub fn pattern(&self, post_type: PostType) -> (pattern: &str)
        ensures
            pattern@ == self@.of(post_type),
    {
        match post_type {
            PostType::Image => self.image.as_str(),
            PostType::Video => self.video.as_str(),
        }
    }

    /// The patterns used where none are configured: images of a post share
    /// a directory named after the post, a video is a single file.
    pub fn defaults() -> (patterns: FilenamePatterns)
        ensures
            patterns@ == default_patterns(),
    {
        FilenamePatterns {
            image: "{type}/{post_id} - {title}/{link_id}".to_owned(),
            video: "{type}/{post_id} - {title}".to_owned(),
        }
    }

    /// A copy of the patterns.
    pub fn duplicate(&self) -> (copy: FilenamePatterns)
        ensures
            copy@ == self@,
    {
        FilenamePatterns { image: self.image.clone(), video: self.video.clone() }
    }
}

/// The settings read from the configuration file.
#[derive(Debug)]
pub struct Configuration {
    pub cookie: String,
    pub creator_id: i64,
    pub creator_name: String,
    pub filename_pattern: Option<FilenamePatterns>,
    pub download_directory: Option<String>,
}

impl Configuration {
    /// The directory for downloads: the configured one, else `downloads`.
    pub open spec fn directory(self) -> Seq<char> {
        match self.download_directory {
            Some(dir) => dir@,
            None => "downloads"@,
        }
    }

    /// The patterns in force: the configured ones, else the defaults.
    pub open spec fn patterns(self) -> Patterns {
        match self.filename_pattern {
            Some(patterns) => patterns@,
            None => default_patterns(),
        }
    }

    /// The directory under which downloads are kept.
    pub fn download_directory(&self) -> (dir: &str)
        ensures
            dir@ == self.directory(),
    {
        match &self.download_directory {
            Some(dir) => dir.as_str(),
            None => "downloads",
        }
    }

    /// The filename patterns in force.
    pub fn filename_pattern(&self) -> (patterns: FilenamePatterns)
        ensures
            patterns@ == self.patterns(),
    {
        match &self.filename_pattern {
            Some(patterns) => patterns.duplicate(),
            None => FilenamePatterns::defaults(),
        }
    }

    /// Settings for trying things out: every file directly under
    /// `downloads`, named by its link id.
    pub fn test() -> (configuration: Configuration)
        ensures
            configuration.directory() == "downloads"@,
            configuration.patterns() == (Patterns { image: "{link_id}"@, video: "{link_id}"@ }),
            configuration.cookie@ == "cookie"@,
            configuration.creator_id == 1,
            configuration.creator_name@ == "creator"@,
    {
        Configuration {
            download_directory: Some("downloads".to_owned()),
            cookie: "cookie".to_owned(),
            creator_id: 1,
            creator_name: "creator".to_owned(),
            filename_pattern: Some(
                FilenamePatterns { image: "{link_id}".to_owned(), video: "{link_id}".to_owned() },
            ),
        }
    }
}

} // verus!
